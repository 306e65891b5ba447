//! Authentication core for a small blogging backend: issuance and
//! verification of RSA-SHA256 signed compact tokens (`token`, with the
//! claims payload codec in `claims`), request credential extraction
//! (`jwt_auth`), syntactic credential validation (`validation`), and the
//! registration and login decision logic (`user`), together with the
//! record shapes for posts and likes (`microblog`, `like`). Every call
//! into an outside crate stands behind a contract in `outside`; the
//! cross-call guarantees are proved in `laws`.

pub mod claims;
pub mod jwt_auth;
pub mod like;
pub mod laws;
pub mod microblog;
pub mod outside;
pub mod response;
pub mod token;
pub mod user;
pub mod validation;
