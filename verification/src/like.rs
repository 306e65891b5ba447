//! Per-post likes: the record shapes and conversions around the likes
//! store. Timestamps are unix seconds and ids are hyphenated UUID strings;
//! the store itself (SQL) is an external collaborator that hands rows in
//! and takes rows back.

use vstd::prelude::*;

use crate::outside::is_uuid_chars;
use crate::outside::new_uuid_string;
use crate::outside::now_timestamp;
use crate::response::Response;
use crate::token::is_uuid_string;

verus! {

/// A like as served to clients.
#[derive(Debug)]
pub struct Like {
    pub id: String,
    pub created_at: i64,
}

/// A like as stored, keyed to its blog post.
#[derive(Debug)]
pub struct LikeDB {
    pub id: String,
    pub created_at: i64,
    pub blog_id: String,
}

/// The list body for likes.
pub type Likes = Response<Like>;

impl Like {
    /// A fresh like: a new random id, stamped now.
    pub fn new() -> (r: Self)
        ensures
            is_uuid_chars(r.id@),
            -9_000_000_000_000 <= r.created_at <= 9_000_000_000_000,
    {
        Self { id: new_uuid_string(), created_at: now_timestamp() }
    }

    /// The stored row for this like under `blog_id`, stamped now. Returns
    /// nothing when the id is not a UUID string, rather than faulting on
    /// it.
    pub fn to_db_likes(&self, blog_id: &str) -> (r: Option<LikeDB>)
        ensures
            r is Some <==> is_uuid_chars(self.id@),
            r matches Some(d) ==> {
                &&& d.id@ == self.id@
                &&& d.blog_id@ == blog_id@
                &&& -9_000_000_000_000 <= d.created_at <= 9_000_000_000_000
            },
    {
        if !is_uuid_string(self.id.as_str()) {
            return None;
        }
        Some(
            LikeDB {
                id: self.id.clone(),
                created_at: now_timestamp(),
                blog_id: blog_id.to_owned(),
            },
        )
    }
}

impl LikeDB {
    /// The served view of a stored like.
    pub fn to_like(&self) -> (r: Like)
        ensures
            r.id@ == self.id@,
            r.created_at == self.created_at,
    {
        Like { id: self.id.clone(), created_at: self.created_at }
    }
}

/// The list body for a loaded batch of rows, in order.
pub fn like_lists(rows: Vec<LikeDB>) -> (r: Likes)
    ensures
        r.results@.len() == rows@.len(),
        forall|i: int|
            0 <= i < rows@.len() ==> #[trigger] r.results@[i].id@ == rows@[i].id@
                && r.results@[i].created_at == rows@[i].created_at,
{
    let mut results: Vec<Like> = Vec::new();
    let mut i: usize = 0;
    while i < rows.len()
        invariant
            0 <= i <= rows@.len(),
            results@.len() == i,
            forall|j: int|
                0 <= j < i ==> #[trigger] results@[j].id@ == rows@[j].id@
                    && results@[j].created_at == rows@[j].created_at,
        decreases rows@.len() - i,
    {
        results.push(rows[i].to_like());
        i += 1;
    }
    Response { results }
}

/// Which like to remove when a post is disliked: the first of the loaded
/// batch, if there is one.
pub fn like_to_remove(likes: &Likes) -> (r: Option<String>)
    ensures
        r is Some <==> likes.results@.len() > 0,
        r matches Some(id) ==> id@ == likes.results@[0].id@,
{
    if likes.results.len() == 0 {
        None
    } else {
        Some(likes.results[0].id.clone())
    }
}

} // verus!
