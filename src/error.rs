//! The failures that the core reports, and the HTTP status each maps to.
use vstd::prelude::*;

verus! {

/// What was wrong with an input that failed validation.
#[derive(Clone, Copy, Debug, PartialEq, Eq, Structural)]
pub enum ValidationIssue {
    EmptyPassword,
    PasswordTooLong,
    /// A required text field is empty.
    EmptyValue,
    /// A text field is shorter than its minimum.
    TooShort,
    InvalidEmail,
    /// A confirmation field differs from the field it confirms.
    NotMatching,
    /// A number lies outside its allowed range.
    OutOfRange,
}

/// The typed failures of the authentication and authorization core.
#[derive(Clone, Copy, Debug, PartialEq, Eq, Structural)]
pub enum AuthError {
    /// Malformed input, caught before any cryptographic or store work.
    Validation(ValidationIssue),
    /// No credential, or the token's subject no longer exists.
    AuthenticationRequired,
    /// The token is malformed, badly signed or expired.
    InvalidOrExpiredToken,
    /// A valid identity without the role the route requires.
    Forbidden,
    /// The mutation target does not exist or is not the requester's.
    NotFoundOrNotOwned,
    /// A wrong password at login or password change.
    CredentialMismatch,
    /// The stored password hash cannot be parsed.
    InvalidHashFormat,
    /// The password hasher failed.
    HashingFailed,
    /// The backing store failed unexpectedly.
    BackingStoreFailure,
}

pub open spec fn status_of(e: AuthError) -> u16 {
    match e {
        AuthError::Validation(_) => 400,
        AuthError::AuthenticationRequired => 401,
        AuthError::InvalidOrExpiredToken => 401,
        AuthError::Forbidden => 403,
        AuthError::NotFoundOrNotOwned => 404,
        AuthError::CredentialMismatch => 400,
        AuthError::InvalidHashFormat => 400,
        AuthError::HashingFailed => 400,
        AuthError::BackingStoreFailure => 500,
    }
}

impl AuthError {
    /// The HTTP status that clients observe for this failure.
    pub fn status_code(&self) -> (r: u16)
        ensures
            r == status_of(*self),
    {
        match self {
            AuthError::Validation(_) => 400,
            AuthError::AuthenticationRequired => 401,
            AuthError::InvalidOrExpiredToken => 401,
            AuthError::Forbidden => 403,
            AuthError::NotFoundOrNotOwned => 404,
            AuthError::CredentialMismatch => 400,
            AuthError::InvalidHashFormat => 400,
            AuthError::HashingFailed => 400,
            AuthError::BackingStoreFailure => 500,
        }
    }
}

} // verus!
