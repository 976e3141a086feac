//! Request and response bodies, and the validation rules on request bodies.
use vstd::prelude::*;
use validator::ValidateEmail;
use crate::error::{AuthError, ValidationIssue};
use crate::models::{Post, User};

verus! {

/// Whether validator's email rule accepts `s`.
pub uninterp spec fn valid_email(s: Seq<char>) -> bool;

/// Relies on validator's `ValidateEmail::validate_email` for `&str`, which
/// refuses the empty text.
#[verifier::external_body]
fn email_ok(s: &str) -> (r: bool)
    ensures
        r == valid_email(s@),
        s@.len() == 0 ==> !r,
{
    s.validate_email()
}

/// The first rule that fails, if any, for a text that needs `min` characters;
/// an empty text is reported as empty.
pub open spec fn length_issue(s: Seq<char>, min: nat) -> Option<ValidationIssue> {
    if s.len() == 0 && min > 0 {
        Some(ValidationIssue::EmptyValue)
    } else if s.len() < min {
        Some(ValidationIssue::TooShort)
    } else {
        None
    }
}

/// Checks that `s` has at least `min` characters.
pub fn check_length(s: &str, min: usize) -> (r: Result<(), AuthError>)
    ensures
        match length_issue(s@, min as nat) {
            Some(issue) => r == Err::<(), AuthError>(AuthError::Validation(issue)),
            None => r is Ok,
        },
{
    let n = s.unicode_len();
    if n == 0 && min > 0 {
        Err(AuthError::Validation(ValidationIssue::EmptyValue))
    } else if n < min {
        Err(AuthError::Validation(ValidationIssue::TooShort))
    } else {
        Ok(())
    }
}

/// The result of a sequence of checks: the first failure, or success.
pub open spec fn first_issue(issues: Seq<Option<ValidationIssue>>) -> Result<(), AuthError>
    decreases issues.len(),
{
    if issues.len() == 0 {
        Ok(())
    } else {
        match issues[0] {
            Some(i) => Err(AuthError::Validation(i)),
            None => first_issue(issues.drop_first()),
        }
    }
}

pub open spec fn email_issue(email_valid: bool) -> Option<ValidationIssue> {
    if email_valid {
        None
    } else {
        Some(ValidationIssue::InvalidEmail)
    }
}

pub open spec fn match_issue(a: Seq<char>, b: Seq<char>) -> Option<ValidationIssue> {
    if a == b {
        None
    } else {
        Some(ValidationIssue::NotMatching)
    }
}

#[derive(Debug)]
pub struct RegisterUserDto {
    pub name: String,
    pub username: String,
    pub email: String,
    pub bio: Option<String>,
    pub password: String,
    pub password_confirm: String,
}

pub open spec fn register_outcome(d: RegisterUserDto, email_valid: bool) -> Result<(), AuthError> {
    first_issue(
        seq![
            length_issue(d.name@, 1),
            length_issue(d.username@, 3),
            email_issue(email_valid),
            length_issue(d.password@, 6),
            match_issue(d.password_confirm@, d.password@),
        ],
    )
}

impl RegisterUserDto {
    /// The field rules, given the email rule's verdict on `email`.
    pub fn check_fields(&self, email_valid: bool) -> (r: Result<(), AuthError>)
        ensures
            r == register_outcome(*self, email_valid),
    {
        reveal_with_fuel(first_issue, 6);
        check_length(self.name.as_str(), 1)?;
        check_length(self.username.as_str(), 3)?;
        if !email_valid {
            return Err(AuthError::Validation(ValidationIssue::InvalidEmail));
        }
        check_length(self.password.as_str(), 6)?;
        if self.password_confirm != self.password {
            return Err(AuthError::Validation(ValidationIssue::NotMatching));
        }
        Ok(())
    }

    /// Name not empty, username of at least 3 characters, a valid email, a
    /// password of at least 6 characters, and a matching confirmation.
    pub fn validate(&self) -> (r: Result<(), AuthError>)
        ensures
            r == register_outcome(*self, valid_email(self.email@)),
    {
        let ok = email_ok(self.email.as_str());
        self.check_fields(ok)
    }
}

#[derive(Debug)]
pub struct LoginUserDto {
    pub email: String,
    pub password: String,
}

pub open spec fn login_fields_outcome(d: LoginUserDto, email_valid: bool) -> Result<(), AuthError> {
    first_issue(seq![email_issue(email_valid), length_issue(d.password@, 6)])
}

impl LoginUserDto {
    /// The field rules, given the email rule's verdict on `email`.
    pub fn check_fields(&self, email_valid: bool) -> (r: Result<(), AuthError>)
        ensures
            r == login_fields_outcome(*self, email_valid),
    {
        reveal_with_fuel(first_issue, 3);
        if !email_valid {
            return Err(AuthError::Validation(ValidationIssue::InvalidEmail));
        }
        check_length(self.password.as_str(), 6)?;
        Ok(())
    }

    /// A valid email and a password of at least 6 characters.
    pub fn validate(&self) -> (r: Result<(), AuthError>)
        ensures
            r == login_fields_outcome(*self, valid_email(self.email@)),
    {
        let ok = email_ok(self.email.as_str());
        self.check_fields(ok)
    }
}

/// Paging parameters of a list request.
#[derive(Clone, Copy, Debug, PartialEq, Eq, Structural)]
pub struct RequestQueryDto {
    pub page: Option<usize>,
    pub limit: Option<usize>,
}

pub open spec fn query_outcome(q: RequestQueryDto) -> Result<(), AuthError> {
    let page_ok = match q.page {
        Some(p) => p >= 1,
        None => true,
    };
    let limit_ok = match q.limit {
        Some(l) => 1 <= l <= 50,
        None => true,
    };
    if page_ok && limit_ok {
        Ok(())
    } else {
        Err(AuthError::Validation(ValidationIssue::OutOfRange))
    }
}

impl RequestQueryDto {
    /// A page of at least 1 and a limit from 1 to 50, where given.
    pub fn validate(&self) -> (r: Result<(), AuthError>)
        ensures
            r == query_outcome(*self),
    {
        let page_ok = match self.page {
            Some(p) => p >= 1,
            None => true,
        };
        let limit_ok = match self.limit {
            Some(l) => 1 <= l && l <= 50,
            None => true,
        };
        if page_ok && limit_ok {
            Ok(())
        } else {
            Err(AuthError::Validation(ValidationIssue::OutOfRange))
        }
    }

    /// The page asked for, 1 by default.
    pub fn page_or_default(&self) -> (r: usize)
        ensures
            r == match self.page {
                Some(p) => p,
                None => 1,
            },
    {
        match self.page {
            Some(p) => p,
            None => 1,
        }
    }

    /// The number of rows before page `page` of `limit` rows.
    pub fn offset(page: u32, limit: u32) -> (r: u64)
        requires
            page >= 1,
        ensures
            r == (page - 1) * limit,
    {
        let p: u64 = (page - 1) as u64;
        assert(p * (limit as u64) <= 0xffff_ffff * 0xffff_ffff) by (nonlinear_arith)
            requires
                p <= 0xffff_ffff,
                limit <= 0xffff_ffff,
        ;
        p * (limit as u64)
    }

    /// The page size asked for, 10 by default.
    pub fn limit_or_default(&self) -> (r: usize)
        ensures
            r == match self.limit {
                Some(l) => l,
                None => 10,
            },
    {
        match self.limit {
            Some(l) => l,
            None => 10,
        }
    }
}

/// A user as clients see it: every field but the password hash.
#[derive(Debug)]
pub struct FilterUserDto {
    pub id: u128,
    pub name: String,
    pub username: String,
    pub email: String,
    pub bio: Option<String>,
    pub created_at: i64,
    pub updated_at: i64,
}

impl FilterUserDto {
    /// The client-facing view of `user`.
    pub fn filter_user(user: &User) -> (r: FilterUserDto)
        ensures
            r == (FilterUserDto {
                id: user.id,
                name: user.name,
                username: user.username,
                email: user.email,
                bio: user.bio,
                created_at: user.created_at,
                updated_at: user.updated_at,
            }),
    {
        FilterUserDto {
            id: user.id,
            name: user.name.clone(),
            username: user.username.clone(),
            email: user.email.clone(),
            bio: crate::models::copy_opt_text(&user.bio),
            created_at: user.created_at,
            updated_at: user.updated_at,
        }
    }
}

#[derive(Debug)]
pub struct UserData {
    pub user: FilterUserDto,
}

#[derive(Debug)]
pub struct PostDto {
    pub title: String,
    pub content: String,
}

pub open spec fn post_outcome(d: PostDto) -> Result<(), AuthError> {
    first_issue(seq![length_issue(d.title@, 1), length_issue(d.content@, 1)])
}

impl PostDto {
    /// A title and content that are not empty.
    pub fn validate(&self) -> (r: Result<(), AuthError>)
        ensures
            r == post_outcome(*self),
    {
        reveal_with_fuel(first_issue, 3);
        check_length(self.title.as_str(), 1)?;
        check_length(self.content.as_str(), 1)?;
        Ok(())
    }
}

#[derive(Debug)]
pub struct UserLoginResponseDto {
    pub status: String,
    pub token: String,
}

#[derive(Debug)]
pub struct UserListResponseDto {
    pub status: String,
    pub users: Vec<FilterUserDto>,
    pub results: i64,
}

#[derive(Debug)]
pub struct UserResponseDto {
    pub status: String,
    pub data: UserData,
}

pub struct Response {
    pub status: &'static str,
    pub message: String,
}

#[derive(Debug)]
pub struct NameUpdateDto {
    pub name: String,
}

impl NameUpdateDto {
    /// A name that is not empty.
    pub fn validate(&self) -> (r: Result<(), AuthError>)
        ensures
            r == first_issue(seq![length_issue(self.name@, 1)]),
    {
        reveal_with_fuel(first_issue, 2);
        check_length(self.name.as_str(), 1)?;
        Ok(())
    }
}

#[derive(Debug)]
pub struct UserPasswordUpdateDto {
    pub new_password: String,
    pub new_password_confirm: String,
    pub old_password: String,
}

pub open spec fn password_update_outcome(d: UserPasswordUpdateDto) -> Result<(), AuthError> {
    first_issue(
        seq![
            length_issue(d.new_password@, 6),
            length_issue(d.new_password_confirm@, 6),
            match_issue(d.new_password_confirm@, d.new_password@),
            length_issue(d.old_password@, 6),
        ],
    )
}

impl UserPasswordUpdateDto {
    /// New password and its confirmation of at least 6 characters and equal,
    /// and an old password of at least 6 characters.
    pub fn validate(&self) -> (r: Result<(), AuthError>)
        ensures
            r == password_update_outcome(*self),
    {
        reveal_with_fuel(first_issue, 5);
        check_length(self.new_password.as_str(), 6)?;
        check_length(self.new_password_confirm.as_str(), 6)?;
        if self.new_password_confirm != self.new_password {
            return Err(AuthError::Validation(ValidationIssue::NotMatching));
        }
        check_length(self.old_password.as_str(), 6)?;
        Ok(())
    }
}

#[derive(Debug)]
pub struct PostListResponseDto {
    pub status: String,
    pub results: i64,
    pub posts: Vec<Post>,
}

} // verus!
