//! Per-request identity resolution and role gating.
//!
//! Resolution runs in two steps around the one store read it needs:
//! `authenticate_request` turns the `Authorization` header into the subject
//! id to load (or rejects the request with no store access at all), and
//! `load_identity` turns the row that was read into the request's identity.
use vstd::prelude::*;
use crate::error::AuthError;
use crate::models::{role_rank, Role, User};
use crate::token::{verify_outcome, TokenCodec};

verus! {

/// The characters `Bearer ` that open a bearer credential.
pub open spec fn bearer_prefix() -> Seq<char> {
    seq!['B', 'e', 'a', 'r', 'e', 'r', ' ']
}

/// The token that an `Authorization` header value carries, if it is a
/// non-empty bearer credential.
pub open spec fn bearer_of(header: Seq<char>) -> Option<Seq<char>> {
    if header.len() > 7 && header.subrange(0, 7) == bearer_prefix() {
        Some(header.subrange(7, header.len() as int))
    } else {
        None
    }
}

/// The subject to load for a request, or why it is rejected.
pub open spec fn subject_outcome(key: Seq<u8>, header: Option<Seq<char>>, now: u64) -> Result<
    u128,
    AuthError,
> {
    match header {
        None => Err(AuthError::AuthenticationRequired),
        Some(h) => match bearer_of(h) {
            None => Err(AuthError::AuthenticationRequired),
            Some(t) => match verify_outcome(key, t, now) {
                Ok(c) => Ok(c.sub),
                Err(_) => Err(AuthError::InvalidOrExpiredToken),
            },
        },
    }
}

/// The token in an `Authorization` header value of the form `Bearer <token>`.
pub fn bearer_token(header: &str) -> (r: Option<String>)
    ensures
        match bearer_of(header@) {
            Some(t) => r matches Some(s) && s@ == t,
            None => r is None,
        },
{
    let n = header.unicode_len();
    if n <= 7 {
        return None;
    }
    let prefix: [char; 7] = ['B', 'e', 'a', 'r', 'e', 'r', ' '];
    let mut i: usize = 0;
    while i < 7
        invariant
            n == header@.len() > 7,
            i <= 7,
            prefix@ == bearer_prefix(),
            forall|k: int| 0 <= k < i ==> header@[k] == bearer_prefix()[k],
        decreases 7 - i,
    {
        if header.get_char(i) != prefix[i] {
            assert(header@.subrange(0, 7)[i as int] != bearer_prefix()[i as int]);
            return None;
        }
        i = i + 1;
    }
    assert(header@.subrange(0, 7) =~= bearer_prefix());
    Some(header.substring_char(7, n).to_owned())
}

/// The subject id to load for a request carrying the `Authorization` header
/// value `authorization` (if any) at time `now`. A request without a bearer
/// credential is refused here, before any store access.
pub fn authenticate_request(codec: &TokenCodec, authorization: Option<&str>, now: u64) -> (r: Result<
    u128,
    AuthError,
>)
    ensures
        r == subject_outcome(
            codec.key(),
            match authorization {
                Some(h) => Some(h@),
                None => None,
            },
            now,
        ),
        authorization is None ==> r == Err::<u128, AuthError>(AuthError::AuthenticationRequired),
{
    let header = match authorization {
        Some(h) => h,
        None => {
            return Err(AuthError::AuthenticationRequired);
        },
    };
    let token = match bearer_token(header) {
        Some(t) => t,
        None => {
            return Err(AuthError::AuthenticationRequired);
        },
    };
    match codec.verify(token.as_str(), now) {
        Ok(claims) => Ok(claims.sub),
        Err(_) => Err(AuthError::InvalidOrExpiredToken),
    }
}

/// The authenticated identity of one request. It is built once, from the
/// token's subject and a fresh read of that user's row, and only read after.
#[derive(Debug)]
pub struct AuthContext {
    user: User,
}

impl AuthContext {
    pub closed spec fn user_spec(&self) -> User {
        self.user
    }

    /// The user the request acts for.
    pub fn user(&self) -> (r: &User)
        ensures
            *r == self.user_spec(),
    {
        &self.user
    }
}

/// The identity of a request whose token names `subject`, given the row that
/// was read for that id. A missing row (the user was deleted after the token
/// was issued), or a row for another id, rejects the request.
pub fn load_identity(subject: u128, row: Option<User>) -> (r: Result<AuthContext, AuthError>)
    ensures
        match row {
            Some(u) if u.id == subject => r matches Ok(ctx) && ctx.user_spec() == u,
            _ => r matches Err(e) && e == AuthError::AuthenticationRequired,
        },
{
    match row {
        Some(u) => {
            if u.id == subject {
                Ok(AuthContext { user: u })
            } else {
                Err(AuthError::AuthenticationRequired)
            }
        },
        None => Err(AuthError::AuthenticationRequired),
    }
}

/// Admits the request only if its identity holds at least the `required` role.
pub fn require_role(ctx: &AuthContext, required: Role) -> (r: Result<(), AuthError>)
    ensures
        r is Ok <==> role_rank(ctx.user_spec().role) >= role_rank(required),
        r matches Err(e) ==> e == AuthError::Forbidden,
{
    if ctx.user.role.satisfies(required) {
        Ok(())
    } else {
        Err(AuthError::Forbidden)
    }
}

} // verus!
