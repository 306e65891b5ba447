//! Checks of the blog and like record shapes and conversions.

use microblog_auth::like::like_to_remove;
use microblog_auth::like::like_lists;
use microblog_auth::like::Like;
use microblog_auth::like::LikeDB;
use microblog_auth::microblog::list_blogs;
use microblog_auth::microblog::first_blog;
use microblog_auth::microblog::BlogRequest;
use microblog_auth::microblog::MicroBlog;
use microblog_auth::microblog::MicroBlogDB;
use microblog_auth::token::is_uuid_string;

#[test]
fn fresh_blog_has_uuid_and_no_likes() {
    let b = MicroBlog::new("hello world".to_string());
    assert_eq!(b.blog_message, "hello world");
    assert!(is_uuid_string(&b.id));
    assert!(b.likes.is_empty());
}

#[test]
fn blog_db_round_trip() {
    let b = MicroBlog::new("post".to_string());
    let db = b.to_db_microblog().expect("fresh blog ids are UUIDs");
    assert_eq!(db.id, b.id);
    assert_eq!(db.blog_message, b.blog_message);
    let served = db.to_blog();
    assert_eq!(served.id, b.id);
    assert_eq!(served.blog_message, "post");
    assert!(served.likes.is_empty());
}

#[test]
fn bad_blog_id_refused() {
    let b = MicroBlog { id: "nope".to_string(), blog_message: "m".to_string(), created_at: 0, likes: vec![] };
    assert!(b.to_db_microblog().is_none());
}

#[test]
fn add_likes_attaches_likes() {
    let b = MicroBlog::new("post".to_string());
    let l = Like::new();
    let lid = l.id.clone();
    let with = b.add_likes(vec![l]);
    assert_eq!(with.id, b.id);
    assert_eq!(with.likes.len(), 1);
    assert_eq!(with.likes[0].id, lid);
}

#[test]
fn blog_request_conversion() {
    let some = BlogRequest { blog: Some("msg".to_string()) };
    let b = some.new_blog_request().unwrap();
    assert_eq!(b.blog_message, "msg");
    let none = BlogRequest { blog: None };
    assert!(none.new_blog_request().is_none());
}

#[test]
fn list_blogs_maps_rows_in_order() {
    let rows = vec![
        MicroBlogDB { id: "a".to_string(), blog_message: "first".to_string(), created_at: 2 },
        MicroBlogDB { id: "b".to_string(), blog_message: "second".to_string(), created_at: 1 },
    ];
    let body = list_blogs(rows);
    assert_eq!(body.results.len(), 2);
    assert_eq!(body.results[0].blog_message, "first");
    assert_eq!(body.results[1].blog_message, "second");
    assert_eq!(body.results[0].created_at, 2);
}

#[test]
fn first_blog_picks_head() {
    let rows = vec![
        MicroBlogDB { id: "a".to_string(), blog_message: "first".to_string(), created_at: 2 },
        MicroBlogDB { id: "b".to_string(), blog_message: "second".to_string(), created_at: 1 },
    ];
    let b = first_blog(&rows).unwrap();
    assert_eq!(b.id, "a");
    assert!(first_blog(&Vec::new()).is_none());
}

#[test]
fn fresh_like_and_db_conversion() {
    let l = Like::new();
    assert!(is_uuid_string(&l.id));
    let db = l.to_db_likes("11111111-2222-3333-4444-555555555555").unwrap();
    assert_eq!(db.id, l.id);
    assert_eq!(db.blog_id, "11111111-2222-3333-4444-555555555555");
    let back = db.to_like();
    assert_eq!(back.id, l.id);
}

#[test]
fn bad_like_id_refused() {
    let l = Like { id: "xyz".to_string(), created_at: 0 };
    assert!(l.to_db_likes("blog").is_none());
}

#[test]
fn like_lists_and_removal_choice() {
    let rows = vec![
        LikeDB { id: "l1".to_string(), created_at: 5, blog_id: "b".to_string() },
        LikeDB { id: "l2".to_string(), created_at: 4, blog_id: "b".to_string() },
    ];
    let body = like_lists(rows);
    assert_eq!(body.results.len(), 2);
    assert_eq!(body.results[0].id, "l1");
    assert_eq!(like_to_remove(&body), Some("l1".to_string()));
    let empty = like_lists(Vec::new());
    assert_eq!(like_to_remove(&empty), None);
}
