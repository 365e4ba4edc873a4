//! Verified core of the project-management backend: naming rules, JSON
//! document transforms, access-control evaluation, caching and request
//! decisions. I/O, HTTP routing and database access live in the app crate.

pub mod error;
pub mod text;
pub mod naming;
pub mod json;
pub mod acl;
pub mod documents;
pub mod kinds;
pub mod policy;
pub mod keyed;
pub mod cache;
pub mod lexical;
pub mod principals;
pub mod imaging;
pub mod repo_url;
pub mod probe;
pub mod config;
pub mod handlers;
pub mod models;
pub mod offload;
pub mod memdb;
pub mod access;
pub mod debug;
pub mod upload;
pub mod queries;
pub mod cascade;
pub mod repo_check;
pub mod history;
pub mod storage;
pub mod session;
