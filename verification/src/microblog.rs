//! Blog posts: the record shapes and conversions around the post store.
//! As with likes, timestamps are unix seconds and ids are hyphenated UUID
//! strings; SQL loading and storing stays with the caller.

use vstd::prelude::*;

use crate::like::Like;
use crate::outside::is_uuid_chars;
use crate::outside::new_uuid_string;
use crate::outside::now_timestamp;
use crate::response::Response;
use crate::token::is_uuid_string;

verus! {

/// A post as served to clients, likes included.
#[derive(Debug)]
pub struct MicroBlog {
    pub id: String,
    pub blog_message: String,
    pub created_at: i64,
    pub likes: Vec<Like>,
}

/// A post as stored.
#[derive(Debug)]
pub struct MicroBlogDB {
    pub id: String,
    pub blog_message: String,
    pub created_at: i64,
}

/// The list body for posts.
pub type MicroBlogs = Response<MicroBlog>;

/// The create-post request body.
#[derive(Debug)]
pub struct BlogRequest {
    pub blog: Option<String>,
}

impl MicroBlog {
    /// A fresh post with the given message: a new random id, stamped now,
    /// no likes yet.
    pub fn new(blog: String) -> (r: Self)
        ensures
            r.blog_message@ == blog@,
            is_uuid_chars(r.id@),
            -9_000_000_000_000 <= r.created_at <= 9_000_000_000_000,
            r.likes@.len() == 0,
    {
        Self {
            id: new_uuid_string(),
            blog_message: blog,
            created_at: now_timestamp(),
            likes: Vec::new(),
        }
    }

    /// The stored row for this post, stamped now. Returns nothing when
    /// the id is not a UUID string, rather than faulting on it.
    pub fn to_db_microblog(&self) -> (r: Option<MicroBlogDB>)
        ensures
            r is Some <==> is_uuid_chars(self.id@),
            r matches Some(d) ==> {
                &&& d.id@ == self.id@
                &&& d.blog_message@ == self.blog_message@
                &&& -9_000_000_000_000 <= d.created_at <= 9_000_000_000_000
            },
    {
        if !is_uuid_string(self.id.as_str()) {
            return None;
        }
        Some(
            MicroBlogDB {
                id: self.id.clone(),
                blog_message: self.blog_message.clone(),
                created_at: now_timestamp(),
            },
        )
    }

    /// The same post carrying the given likes.
    pub fn add_likes(&self, likes: Vec<Like>) -> (r: Self)
        ensures
            r.id@ == self.id@,
            r.blog_message@ == self.blog_message@,
            r.created_at == self.created_at,
            r.likes == likes,
    {
        MicroBlog {
            id: self.id.clone(),
            blog_message: self.blog_message.clone(),
            created_at: self.created_at,
            likes,
        }
    }
}

impl MicroBlogDB {
    /// The served view of a stored post, with no likes attached yet.
    pub fn to_blog(&self) -> (r: MicroBlog)
        ensures
            r.id@ == self.id@,
            r.blog_message@ == self.blog_message@,
            r.created_at == self.created_at,
            r.likes@.len() == 0,
    {
        MicroBlog {
            id: self.id.clone(),
            blog_message: self.blog_message.clone(),
            created_at: self.created_at,
            likes: Vec::new(),
        }
    }
}

impl BlogRequest {
    /// A fresh post for the request's message, if it carries one.
    pub fn new_blog_request(&self) -> (r: Option<MicroBlog>)
        ensures
            r is Some <==> self.blog is Some,
            r matches Some(b) ==> self.blog matches Some(m) && b.blog_message@ == m@
                && is_uuid_chars(b.id@) && b.likes@.len() == 0,
    {
        match &self.blog {
            Some(a) => Some(MicroBlog::new(a.clone())),
            None => None,
        }
    }
}

/// The list body for a loaded batch of rows, in order.
pub fn list_blogs(rows: Vec<MicroBlogDB>) -> (r: MicroBlogs)
    ensures
        r.results@.len() == rows@.len(),
        forall|i: int|
            0 <= i < rows@.len() ==> #[trigger] r.results@[i].id@ == rows@[i].id@
                && r.results@[i].blog_message@ == rows@[i].blog_message@
                && r.results@[i].created_at == rows@[i].created_at && r.results@[i].likes@.len()
                == 0,
{
    let mut results: Vec<MicroBlog> = Vec::new();
    let mut i: usize = 0;
    while i < rows.len()
        invariant
            0 <= i <= rows@.len(),
            results@.len() == i,
            forall|j: int|
                0 <= j < i ==> #[trigger] results@[j].id@ == rows@[j].id@
                    && results@[j].blog_message@ == rows@[j].blog_message@
                    && results@[j].created_at == rows@[j].created_at && results@[j].likes@.len()
                    == 0,
        decreases rows@.len() - i,
    {
        results.push(rows[i].to_blog());
        i += 1;
    }
    Response { results }
}

/// The served view of a lookup by id: the first loaded row, if any.
pub fn first_blog(rows: &Vec<MicroBlogDB>) -> (r: Option<MicroBlog>)
    ensures
        r is Some <==> rows@.len() > 0,
        r matches Some(b) ==> b.id@ == rows@[0].id@ && b.blog_message@ == rows@[0].blog_message@
            && b.created_at == rows@[0].created_at,
{
    if rows.len() == 0 {
        None
    } else {
        Some(rows[0].to_blog())
    }
}

} // verus!
