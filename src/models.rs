//! Stored records. Ids are 128-bit numbers (the bits of a UUID) and times
//! are seconds since the Unix epoch.
use vstd::prelude::*;

verus! {

/// A capability level. Roles form a closed set: text naming no role is refused
/// when the role is read, never treated as a wildcard.
#[derive(Clone, Copy, Debug, PartialEq, Eq, Structural)]
pub enum Role {
    User,
    Admin,
}

pub open spec fn role_rank(r: Role) -> nat {
    match r {
        Role::User => 0,
        Role::Admin => 1,
    }
}

/// The role that a stored role name denotes.
pub open spec fn role_named(s: Seq<char>) -> Option<Role> {
    if s == seq!['u', 's', 'e', 'r'] {
        Some(Role::User)
    } else if s == seq!['a', 'd', 'm', 'i', 'n'] {
        Some(Role::Admin)
    } else {
        None
    }
}

/// Whether two texts hold the same characters.
pub fn same_text(a: &str, b: &str) -> (r: bool)
    ensures
        r == (a@ == b@),
{
    let n = a.unicode_len();
    if n != b.unicode_len() {
        return false;
    }
    let mut i: usize = 0;
    while i < n
        invariant
            n == a@.len() == b@.len(),
            i <= n,
            forall|k: int| 0 <= k < i ==> a@[k] == b@[k],
        decreases n - i,
    {
        if a.get_char(i) != b.get_char(i) {
            return false;
        }
        i = i + 1;
    }
    assert(a@ =~= b@);
    true
}

impl Role {
    /// The role named by `name` ("user" or "admin"); `None` for any other text.
    pub fn from_name(name: &str) -> (r: Option<Role>)
        ensures
            r == role_named(name@),
    {
        proof {
            reveal_strlit("user");
            reveal_strlit("admin");
            assert("user"@ =~= seq!['u', 's', 'e', 'r']);
            assert("admin"@ =~= seq!['a', 'd', 'm', 'i', 'n']);
        }
        if same_text(name, "user") {
            Some(Role::User)
        } else if same_text(name, "admin") {
            Some(Role::Admin)
        } else {
            None
        }
    }

    /// The stored name of the role.
    pub fn name(&self) -> (r: &'static str)
        ensures
            role_named(r@) == Some(*self),
    {
        proof {
            reveal_strlit("user");
            reveal_strlit("admin");
            assert("user"@ =~= seq!['u', 's', 'e', 'r']);
            assert("admin"@ =~= seq!['a', 'd', 'm', 'i', 'n']);
        }
        match self {
            Role::User => "user",
            Role::Admin => "admin",
        }
    }

    /// Whether this role carries at least the capabilities of `required`.
    pub fn satisfies(&self, required: Role) -> (r: bool)
        ensures
            r == (role_rank(*self) >= role_rank(required)),
    {
        match (self, required) {
            (Role::Admin, _) => true,
            (Role::User, Role::User) => true,
            (Role::User, Role::Admin) => false,
        }
    }
}

#[derive(Debug)]
pub struct User {
    pub id: u128,
    pub name: String,
    pub username: String,
    pub email: String,
    pub bio: Option<String>,
    /// The PHC hash of the password; never the plaintext.
    pub password: String,
    pub role: Role,
    pub created_at: i64,
    pub updated_at: i64,
}

/// A post; `author_id` is set at creation and never changes.
#[derive(Debug)]
pub struct Post {
    pub author_id: u128,
    pub id: u128,
    pub views: i64,
    pub title: String,
    pub content: String,
    pub created_at: i64,
    pub updated_at: i64,
}

#[derive(Debug)]
pub struct Comment {
    pub id: u128,
    pub post_id: u128,
    pub user_id: u128,
    pub content: String,
    pub created_at: i64,
    pub updated_at: i64,
}

#[derive(Debug)]
pub struct Like {
    pub user_id: u128,
    pub post_id: u128,
    pub created_at: i64,
    pub updated_at: i64,
}

/// A copy of an optional text.
pub fn copy_opt_text(t: &Option<String>) -> (r: Option<String>)
    ensures
        r == *t,
{
    match t {
        Some(s) => Some(s.clone()),
        None => None,
    }
}

impl User {
    /// A field-for-field copy.
    pub fn copy(&self) -> (r: User)
        ensures
            r == *self,
    {
        User {
            id: self.id,
            name: self.name.clone(),
            username: self.username.clone(),
            email: self.email.clone(),
            bio: copy_opt_text(&self.bio),
            password: self.password.clone(),
            role: self.role,
            created_at: self.created_at,
            updated_at: self.updated_at,
        }
    }
}

impl Post {
    /// A field-for-field copy.
    pub fn copy(&self) -> (r: Post)
        ensures
            r == *self,
    {
        Post {
            author_id: self.author_id,
            id: self.id,
            views: self.views,
            title: self.title.clone(),
            content: self.content.clone(),
            created_at: self.created_at,
            updated_at: self.updated_at,
        }
    }
}

} // verus!
