//! Ownership-gated mutation of posts.
//!
//! `PostStore` is the table of posts. Updating or deleting a post is one
//! `&mut` step whose condition names both the post id and the requester, so
//! no other request can act between the check and the change. A post that is
//! missing and a post that belongs to someone else give the same
//! `NotFoundOrNotOwned`.
use vstd::prelude::*;
use crate::error::AuthError;
use crate::identity::{require_role, AuthContext};
use crate::models::{role_rank, Post, Role};

verus! {

/// No two posts share an id.
pub open spec fn ids_unique(s: Seq<Post>) -> bool {
    forall|i: int, j: int| 0 <= i < j < s.len() ==> s[i].id != s[j].id
}

/// The position of the post with id `id`, or -1.
pub open spec fn index_of(s: Seq<Post>, id: u128) -> int
    decreases s.len(),
{
    if s.len() == 0 {
        -1
    } else if s.last().id == id {
        s.len() - 1
    } else {
        index_of(s.drop_last(), id)
    }
}

/// Whether the post `id` exists and was created by `owner`.
pub open spec fn owns(s: Seq<Post>, id: u128, owner: u128) -> bool {
    index_of(s, id) >= 0 && s[index_of(s, id)].author_id == owner
}

/// Post `p` with new title and content, changed at `now`.
pub open spec fn edited(p: Post, title: String, content: String, now: i64) -> Post {
    Post { title, content, updated_at: now, ..p }
}

/// The posts after `requester` asks to edit post `id`, and the answer.
pub open spec fn update_outcome(
    s: Seq<Post>,
    id: u128,
    requester: u128,
    title: String,
    content: String,
    now: i64,
) -> (Seq<Post>, Result<Post, AuthError>) {
    if owns(s, id, requester) {
        let p = edited(s[index_of(s, id)], title, content, now);
        (s.update(index_of(s, id), p), Ok(p))
    } else {
        (s, Err(AuthError::NotFoundOrNotOwned))
    }
}

/// The posts after `requester` asks to delete post `id`, and the answer.
pub open spec fn delete_outcome(s: Seq<Post>, id: u128, requester: u128) -> (
    Seq<Post>,
    Result<(), AuthError>,
) {
    if owns(s, id, requester) {
        (s.remove(index_of(s, id)), Ok(()))
    } else {
        (s, Err(AuthError::NotFoundOrNotOwned))
    }
}

pub proof fn lemma_index_of(s: Seq<Post>, id: u128)
    requires
        ids_unique(s),
    ensures
        -1 <= index_of(s, id) < s.len(),
        index_of(s, id) >= 0 ==> s[index_of(s, id)].id == id,
        forall|k: int| 0 <= k < s.len() && #[trigger] s[k].id == id ==> index_of(s, id) == k,
    decreases s.len(),
{
    if s.len() > 0 {
        let t = s.drop_last();
        assert(ids_unique(t)) by {
            assert forall|x: int, y: int| 0 <= x < y < t.len() implies t[x].id != t[y].id by {
                assert(t[x] == s[x] && t[y] == s[y]);
            }
        }
        lemma_index_of(t, id);
        assert forall|k: int| 0 <= k < s.len() && #[trigger] s[k].id == id implies index_of(s, id)
            == k by {
            if k < s.len() - 1 {
                assert(t[k] == s[k]);
            }
        }
    }
}

pub struct PostStore {
    posts: Vec<Post>,
}

impl View for PostStore {
    type V = Seq<Post>;

    closed spec fn view(&self) -> Seq<Post> {
        self.posts@
    }
}

impl PostStore {
    pub fn new() -> (r: PostStore)
        ensures
            r@ == Seq::<Post>::empty(),
    {
        PostStore { posts: Vec::new() }
    }

    /// The position of post `id`, found by scanning.
    fn find(&self, id: u128) -> (r: Option<usize>)
        requires
            ids_unique(self@),
        ensures
            match r {
                Some(i) => index_of(self@, id) == i && i < self@.len(),
                None => index_of(self@, id) == -1,
            },
    {
        proof {
            lemma_index_of(self@, id);
        }
        let mut i: usize = 0;
        while i < self.posts.len()
            invariant
                i <= self@.len(),
                ids_unique(self@),
                forall|k: int| 0 <= k < i ==> self@[k].id != id,
            decreases self@.len() - i,
        {
            if self.posts[i].id == id {
                proof {
                    lemma_index_of(self@, id);
                    assert(self@[i as int].id == id);
                }
                return Some(i);
            }
            i = i + 1;
        }
        None
    }

    /// Adds a post by `author_id`; refused as a store failure when the id is taken.
    pub fn create_post(
        &mut self,
        id: u128,
        author_id: u128,
        title: String,
        content: String,
        now: i64,
    ) -> (r: Result<Post, AuthError>)
        requires
            ids_unique(old(self)@),
        ensures
            ids_unique(final(self)@),
            index_of(old(self)@, id) >= 0 ==> r == Err::<Post, AuthError>(
                AuthError::BackingStoreFailure,
            ) && final(self)@ == old(self)@,
            index_of(old(self)@, id) < 0 ==> (r matches Ok(p) && p == (Post {
                author_id,
                id,
                views: 0,
                title,
                content,
                created_at: now,
                updated_at: now,
            }) && final(self)@ == old(self)@.push(p)),
    {
        if self.find(id).is_some() {
            return Err(AuthError::BackingStoreFailure);
        }
        proof {
            lemma_index_of(self@, id);
        }
        let p = Post { author_id, id, views: 0, title, content, created_at: now, updated_at: now };
        let out = p.copy();
        self.posts.push(p);
        Ok(out)
    }

    /// A copy of post `id`, if there is one. Reading is not gated by ownership.
    pub fn get_post(&self, id: u128) -> (r: Option<Post>)
        requires
            ids_unique(self@),
        ensures
            index_of(self@, id) >= 0 ==> r == Some(self@[index_of(self@, id)]),
            index_of(self@, id) < 0 ==> r is None,
    {
        match self.find(id) {
            Some(i) => Some(self.posts[i].copy()),
            None => None,
        }
    }

    /// Sets the title and content of post `id` if `requester` owns it.
    pub fn update_post(
        &mut self,
        id: u128,
        requester: u128,
        title: String,
        content: String,
        now: i64,
    ) -> (r: Result<Post, AuthError>)
        requires
            ids_unique(old(self)@),
        ensures
            ids_unique(final(self)@),
            (final(self)@, r) == update_outcome(old(self)@, id, requester, title, content, now),
    {
        proof {
            lemma_index_of(self@, id);
        }
        let i = match self.find(id) {
            Some(i) => i,
            None => {
                return Err(AuthError::NotFoundOrNotOwned);
            },
        };
        if self.posts[i].author_id != requester {
            return Err(AuthError::NotFoundOrNotOwned);
        }
        let old_post = &self.posts[i];
        let p = Post {
            author_id: old_post.author_id,
            id: old_post.id,
            views: old_post.views,
            title,
            content,
            created_at: old_post.created_at,
            updated_at: now,
        };
        let out = p.copy();
        self.posts.set(i, p);
        proof {
            assert forall|a: int, b: int| 0 <= a < b < self@.len() implies self@[a].id
                != self@[b].id by {
                assert(old(self)@[a].id == self@[a].id);
                assert(old(self)@[b].id == self@[b].id);
            }
        }
        Ok(out)
    }

    /// Removes post `id` if `requester` owns it.
    pub fn delete_post(&mut self, id: u128, requester: u128) -> (r: Result<(), AuthError>)
        requires
            ids_unique(old(self)@),
        ensures
            ids_unique(final(self)@),
            (final(self)@, r) == delete_outcome(old(self)@, id, requester),
    {
        proof {
            lemma_index_of(self@, id);
        }
        let i = match self.find(id) {
            Some(i) => i,
            None => {
                return Err(AuthError::NotFoundOrNotOwned);
            },
        };
        if self.posts[i].author_id != requester {
            return Err(AuthError::NotFoundOrNotOwned);
        }
        let ghost before = self@;
        self.posts.remove(i);
        proof {
            assert forall|a: int, b: int| 0 <= a < b < self@.len() implies self@[a].id
                != self@[b].id by {
                let a0 = if a < i { a } else { a + 1 };
                let b0 = if b < i { b } else { b + 1 };
                assert(self@[a] == before[a0]);
                assert(self@[b] == before[b0]);
            }
        }
        Ok(())
    }
}

/// The answer to a conditional update or delete on a database table, whose
/// condition names both the row id and the owner, from the number of rows it
/// changed.
pub fn conditional_write_outcome(rows_affected: u64) -> (r: Result<(), AuthError>)
    ensures
        rows_affected == 0 ==> r == Err::<(), AuthError>(AuthError::NotFoundOrNotOwned),
        rows_affected > 0 ==> r is Ok,
{
    if rows_affected == 0 {
        Err(AuthError::NotFoundOrNotOwned)
    } else {
        Ok(())
    }
}

/// Whether `role` meets the route's `required` role.
pub open spec fn role_admits(role: Role, required: Role) -> bool {
    role_rank(role) >= role_rank(required)
}

/// Edits post `id` for the identity `ctx` on a route that requires the role
/// `required`. An identity below that role is refused before the store is
/// touched.
pub fn update_post_as(
    store: &mut PostStore,
    ctx: &AuthContext,
    required: Role,
    id: u128,
    title: String,
    content: String,
    now: i64,
) -> (r: Result<Post, AuthError>)
    requires
        ids_unique(old(store)@),
    ensures
        ids_unique(final(store)@),
        !role_admits(ctx.user_spec().role, required) ==> r == Err::<Post, AuthError>(
            AuthError::Forbidden,
        ) && final(store)@ == old(store)@,
        role_admits(ctx.user_spec().role, required) ==> (final(store)@, r) == update_outcome(
            old(store)@,
            id,
            ctx.user_spec().id,
            title,
            content,
            now,
        ),
{
    require_role(ctx, required)?;
    store.update_post(id, ctx.user().id, title, content, now)
}

/// Deletes post `id` for the identity `ctx` on a route that requires the role
/// `required`. An identity below that role is refused before the store is
/// touched.
pub fn delete_post_as(store: &mut PostStore, ctx: &AuthContext, required: Role, id: u128) -> (r:
    Result<(), AuthError>)
    requires
        ids_unique(old(store)@),
    ensures
        ids_unique(final(store)@),
        !role_admits(ctx.user_spec().role, required) ==> r == Err::<(), AuthError>(
            AuthError::Forbidden,
        ) && final(store)@ == old(store)@,
        role_admits(ctx.user_spec().role, required) ==> (final(store)@, r) == delete_outcome(
            old(store)@,
            id,
            ctx.user_spec().id,
        ),
{
    require_role(ctx, required)?;
    store.delete_post(id, ctx.user().id)
}

/// When `a` owns post `id`, any other user's update or delete of it answers
/// `NotFoundOrNotOwned` and leaves the posts as they were.
pub proof fn lemma_non_owner_cannot_mutate(
    s: Seq<Post>,
    id: u128,
    a: u128,
    b: u128,
    title: String,
    content: String,
    now: i64,
)
    requires
        ids_unique(s),
        owns(s, id, a),
        a != b,
    ensures
        update_outcome(s, id, b, title, content, now) == (
            s,
            Err::<Post, AuthError>(AuthError::NotFoundOrNotOwned),
        ),
        delete_outcome(s, id, b) == (s, Err::<(), AuthError>(AuthError::NotFoundOrNotOwned)),
{
}

/// An owner's update and delete of the same post, applied in either order,
/// leave the same posts as the delete alone: the post is gone and nothing of
/// the update remains. When the delete comes first the update answers
/// `NotFoundOrNotOwned`; when the update comes first both succeed.
pub proof fn lemma_update_delete_race(
    s: Seq<Post>,
    id: u128,
    a: u128,
    title: String,
    content: String,
    now: i64,
)
    requires
        ids_unique(s),
        owns(s, id, a),
    ensures
        ({
            let (s1, d) = delete_outcome(s, id, a);
            let (s2, u) = update_outcome(s1, id, a, title, content, now);
            d is Ok && u == Err::<Post, AuthError>(AuthError::NotFoundOrNotOwned) && s2
                == delete_outcome(s, id, a).0
        }),
        ({
            let (s1, u) = update_outcome(s, id, a, title, content, now);
            let (s2, d) = delete_outcome(s1, id, a);
            u is Ok && d is Ok && s2 == delete_outcome(s, id, a).0
        }),
        index_of(delete_outcome(s, id, a).0, id) == -1,
{
    lemma_index_of(s, id);
    let i = index_of(s, id);
    let s1 = s.remove(i);
    assert(ids_unique(s1)) by {
        assert forall|x: int, y: int| 0 <= x < y < s1.len() implies s1[x].id != s1[y].id by {
            let x0 = if x < i { x } else { x + 1 };
            let y0 = if y < i { y } else { y + 1 };
            assert(s1[x] == s[x0]);
            assert(s1[y] == s[y0]);
        }
    }
    lemma_index_of(s1, id);
    assert forall|k: int| 0 <= k < s1.len() implies #[trigger] s1[k].id != id by {
        let k0 = if k < i { k } else { k + 1 };
        assert(s1[k] == s[k0]);
    }
    let t = s.update(i, edited(s[i], title, content, now));
    assert(ids_unique(t)) by {
        assert forall|x: int, y: int| 0 <= x < y < t.len() implies t[x].id != t[y].id by {
            assert(t[x].id == s[x].id);
            assert(t[y].id == s[y].id);
        }
    }
    lemma_index_of(t, id);
    assert(t[i].id == id);
    assert(t.remove(i) =~= s1);
}

} // verus!
