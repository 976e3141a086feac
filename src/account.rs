//! Registration, login and password change: the parts of each that sit
//! between the request body and the store.
use vstd::prelude::*;
use crate::dtos::{
    login_fields_outcome, password_update_outcome, register_outcome, valid_email, LoginUserDto,
    RegisterUserDto, UserLoginResponseDto, UserPasswordUpdateDto,
};
use crate::error::AuthError;
use crate::models::User;
use crate::password::{
    argon2_accepts, compare_outcome, compare_password, hash_password, password_issue,
    phc_well_formed,
};
use crate::token::{token_text, Claims, TokenCodec};

verus! {

/// What hashing `password` may give: the validation error it owes, or a hash
/// that verifies against it, or a hashing failure.
pub open spec fn hash_result_ok(password: Seq<char>, r: Result<String, AuthError>) -> bool {
    match password_issue(password) {
        Some(issue) => r == Err::<String, AuthError>(AuthError::Validation(issue)),
        None => match r {
            Ok(h) => phc_well_formed(h@) && argon2_accepts(password, h@),
            Err(e) => e == AuthError::HashingFailed,
        },
    }
}

/// Validates a registration and hashes its password; the hash is what the
/// new user row stores.
pub fn prepare_registration(body: &RegisterUserDto) -> (r: Result<String, AuthError>)
    ensures
        match register_outcome(*body, valid_email(body.email@)) {
            Err(e) => r == Err::<String, AuthError>(e),
            Ok(_) => hash_result_ok(body.password@, r),
        },
{
    body.validate()?;
    hash_password(body.password.as_str())
}

/// Logs in the user `user` found by the body's email (if any) at time
/// `now`, answering with a token for that user.
pub fn login(codec: &TokenCodec, body: &LoginUserDto, user: Option<User>, now: u64) -> (r: Result<
    UserLoginResponseDto,
    AuthError,
>)
    requires
        now + codec.lifetime() <= u64::MAX,
    ensures
        match login_fields_outcome(*body, valid_email(body.email@)) {
            Err(e) => r == Err::<UserLoginResponseDto, AuthError>(e),
            Ok(_) => match user {
                None => r == Err::<UserLoginResponseDto, AuthError>(AuthError::CredentialMismatch),
                Some(u) => match compare_outcome(u.password@, body.password@) {
                    Err(e) => r == Err::<UserLoginResponseDto, AuthError>(e),
                    Ok(false) => r == Err::<UserLoginResponseDto, AuthError>(
                        AuthError::CredentialMismatch,
                    ),
                    Ok(true) => r matches Ok(resp) && resp.status@ == seq![
                        's',
                        'u',
                        'c',
                        'c',
                        'e',
                        's',
                        's',
                    ] && resp.token@ == token_text(
                        codec.key(),
                        Claims { sub: u.id, iat: now, exp: (now + codec.lifetime()) as u64 },
                    ),
                },
            },
        },
{
    body.validate()?;
    let u = match user {
        Some(u) => u,
        None => {
            return Err(AuthError::CredentialMismatch);
        },
    };
    let matches = compare_password(u.password.as_str(), body.password.as_str())?;
    if !matches {
        return Err(AuthError::CredentialMismatch);
    }
    let token = codec.issue(u.id, now);
    proof {
        reveal_strlit("success");
        assert("success"@ =~= seq!['s', 'u', 'c', 'c', 'e', 's', 's']);
    }
    Ok(UserLoginResponseDto { status: "success".to_string(), token })
}

/// Checks a password change against the stored hash `stored_hash` and gives
/// the hash of the new password to store.
pub fn change_password(stored_hash: &str, body: &UserPasswordUpdateDto) -> (r: Result<
    String,
    AuthError,
>)
    ensures
        match password_update_outcome(*body) {
            Err(e) => r == Err::<String, AuthError>(e),
            Ok(_) => match compare_outcome(stored_hash@, body.old_password@) {
                Err(e) => r == Err::<String, AuthError>(e),
                Ok(false) => r == Err::<String, AuthError>(AuthError::CredentialMismatch),
                Ok(true) => hash_result_ok(body.new_password@, r),
            },
        },
{
    body.validate()?;
    let matches = compare_password(stored_hash, body.old_password.as_str())?;
    if !matches {
        return Err(AuthError::CredentialMismatch);
    }
    hash_password(body.new_password.as_str())
}

} // verus!
