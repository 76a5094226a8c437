//! A verified CRUD core for a small blog service: posts are validated,
//! given a unique identifier and monotonic timestamps, stored, read back
//! under soft-delete visibility rules, searched by case-sensitive
//! substring, updated and deleted — with the behaviour of every operation
//! stated in its contract and proved.
//!
//! Two interchangeable storage adapters honour the same behaviour:
//! [`store::BlogStore`], in memory and fully verified, and
//! [`db::DbConnection`], backed by a SQLite table through `rusqlite`,
//! verified against narrow contracts on each SQL statement.

pub mod clock;
pub mod db;
pub mod message;
pub mod models;
pub mod search;
pub mod store;

use vstd::prelude::*;

verus! {

/// Errors surfaced by the blog operations: a rejected payload, a missing or
/// soft-deleted post, or a backend failure.
#[derive(Clone, Copy, Debug)]
pub enum StoreError {
    Validation,
    NotFound,
    Storage,
}

} // verus!
