//! A personal media collection library: a content-addressed object store
//! paired with a relational catalog index that supports filtered, sorted,
//! paginated browsing.
//!
//! The object store derives a file's identity from its content digest and
//! keeps a per-item metadata sidecar; the catalog index mirrors store
//! metadata into a SQLite database with a denormalized tag relation, and a
//! filter compiler turns a boolean expression tree into a parameterized
//! predicate over that index.

pub mod error;
pub mod strutil;
pub mod types;
pub mod hash;
pub mod store;
pub mod filter;
pub mod db;
pub mod facade;
