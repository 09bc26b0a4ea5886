//! Core logic of a blog-style web application: the pagination/query-string
//! codec that drives every list view, and the session/identity resolver that
//! derives the signed-in user from a cookie header.

pub mod article;
pub mod auth;
pub mod num;
pub mod pagination;
pub mod text;
pub mod user;
