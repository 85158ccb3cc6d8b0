//! Data-access core of a small forum service: boards, posts and comments.
//!
//! The crate holds the decisions of the service, each with a contract:
//! skip-then-take pagination over a forward-only row sequence, a cache of
//! point lookups bounded by a time to live, the table of reusable query
//! plans, and the repositories that combine them. Talking to the store and to
//! the network is left to the program that embeds the crate: it carries out
//! what the functions here ask for and hands them the answers.

pub mod models;
pub mod errors;
pub mod timing;
pub mod ident;
pub mod statements;
pub mod paging;
pub mod cache;
pub mod rows;
pub mod repository;
pub mod diagnostics;
