//! Salted one-way password hashing with argon2, and verification against a
//! stored PHC-format hash.
use vstd::prelude::*;
use argon2::password_hash::rand_core::OsRng;
use argon2::password_hash::{PasswordHash, PasswordHasher, PasswordVerifier, SaltString};
use argon2::Argon2;
use crate::error::{AuthError, ValidationIssue};

verus! {

/// The longest accepted password, in characters.
pub const MAX_PASSWORD: usize = 64;

#[verifier::external_type_specification]
#[verifier::external_body]
pub struct ExPasswordHashError(argon2::password_hash::Error);

/// Whether a text parses as a PHC hash string.
pub uninterp spec fn phc_well_formed(phc: Seq<char>) -> bool;

/// Whether argon2 accepts `password` against the PHC hash string `phc`.
pub uninterp spec fn argon2_accepts(password: Seq<char>, phc: Seq<char>) -> bool;

/// Relies on `PasswordHash::new`: whether `phc` is a well-formed PHC string.
#[verifier::external_body]
fn phc_parses(phc: &str) -> (r: bool)
    ensures
        r == phc_well_formed(phc@),
{
    PasswordHash::new(phc).is_ok()
}

/// Relies on `PasswordVerifier::verify_password` of the default `Argon2`,
/// which recomputes the hash with the salt and parameters that `phc` records
/// and compares in constant time.
#[verifier::external_body]
fn argon2_verify(password: &str, phc: &str) -> (r: bool)
    requires
        phc_well_formed(phc@),
    ensures
        r == argon2_accepts(password@, phc@),
{
    match PasswordHash::new(phc) {
        Ok(parsed) => Argon2::default().verify_password(password.as_bytes(), &parsed).is_ok(),
        Err(_) => false,
    }
}

/// Relies on `PasswordHasher::hash_password` of the default `Argon2` with a
/// salt from `SaltString::generate` over the OS random source: the PHC string
/// it returns parses, and the same password verifies against it.
#[verifier::external_body]
fn argon2_hash(password: &str) -> (r: Result<String, argon2::password_hash::Error>)
    ensures
        r matches Ok(h) ==> phc_well_formed(h@) && argon2_accepts(password@, h@),
{
    let salt = SaltString::generate(&mut OsRng);
    Argon2::default().hash_password(password.as_bytes(), &salt).map(|h| h.to_string())
}

/// The verdict on a plaintext password before any cryptographic work: `None`
/// when it may be hashed or checked.
pub open spec fn password_issue(password: Seq<char>) -> Option<ValidationIssue> {
    if password.len() == 0 {
        Some(ValidationIssue::EmptyPassword)
    } else if password.len() > MAX_PASSWORD {
        Some(ValidationIssue::PasswordTooLong)
    } else {
        None
    }
}

/// The outcome of checking `password` against the stored hash `hashed`.
pub open spec fn compare_outcome(hashed: Seq<char>, password: Seq<char>) -> Result<bool, AuthError> {
    match password_issue(password) {
        Some(issue) => Err(AuthError::Validation(issue)),
        None => if !phc_well_formed(hashed) {
            Err(AuthError::InvalidHashFormat)
        } else {
            Ok(argon2_accepts(password, hashed))
        },
    }
}

/// Checks the length rules on a plaintext password.
pub fn check_password(password: &str) -> (r: Result<(), AuthError>)
    ensures
        match password_issue(password@) {
            Some(issue) => r == Err::<(), AuthError>(AuthError::Validation(issue)),
            None => r is Ok,
        },
{
    let n = password.unicode_len();
    if n == 0 {
        Err(AuthError::Validation(ValidationIssue::EmptyPassword))
    } else if n > MAX_PASSWORD {
        Err(AuthError::Validation(ValidationIssue::PasswordTooLong))
    } else {
        Ok(())
    }
}

/// Hashes a password with a fresh random salt. An empty or over-long
/// password is refused before hashing; a hash that comes back verifies
/// against the password.
pub fn hash_password(password: &str) -> (r: Result<String, AuthError>)
    ensures
        match password_issue(password@) {
            Some(issue) => r == Err::<String, AuthError>(AuthError::Validation(issue)),
            None => match r {
                Ok(h) => phc_well_formed(h@) && argon2_accepts(password@, h@),
                Err(e) => e == AuthError::HashingFailed,
            },
        },
{
    check_password(password)?;
    match argon2_hash(password) {
        Ok(h) => Ok(h),
        Err(_) => Err(AuthError::HashingFailed),
    }
}

/// Whether `password` matches the stored hash `hashed_password`.
pub fn compare_password(hashed_password: &str, password: &str) -> (r: Result<bool, AuthError>)
    ensures
        r == compare_outcome(hashed_password@, password@),
{
    check_password(password)?;
    if !phc_parses(hashed_password) {
        return Err(AuthError::InvalidHashFormat);
    }
    Ok(argon2_verify(password, hashed_password))
}

/// A password verifies against any hash that hashing it gave back.
pub proof fn lemma_hash_then_verify(password: Seq<char>, hashed: Seq<char>)
    requires
        password_issue(password) is None,
        phc_well_formed(hashed),
        argon2_accepts(password, hashed),
    ensures
        compare_outcome(hashed, password) == Ok::<bool, AuthError>(true),
{
}

} // verus!
