//! A Maven-style package repository served out of a flat, key-addressed
//! object store.
//!
//! The crate holds the decisions of the service: how a request is classified
//! and admitted, how the directory tree is rebuilt from object keys and
//! remembered between requests, and what each answer looks like. Talking to
//! the object store and to the HTTP front door is left to the caller.

pub mod cfg;
pub mod error;
pub mod request;
pub mod responses;
pub mod storage;
pub mod text;
pub mod util;
