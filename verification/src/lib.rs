//! Bookmark persistence components: a bookmark repository over a relational
//! table model, and an opaque-key blob storage abstraction with a local
//! filesystem backend.

pub mod schema;
pub mod database;
pub mod storage;
