//! A small ETL core: a catalog that maps logical table names to the
//! locations of versioned tables, a rewriter that makes SQL address those
//! tables by name, a router from storage locations to access plans, and the
//! pipeline state machine that ties them together.
//!
//! The library decides and computes; it performs no I/O. A driver reads files,
//! runs SQL and writes tables, and reports back what it obtained.

pub mod catalog;
pub mod error;
pub mod pipeline;
pub mod rewriter;
pub mod sql;
pub mod text;
pub mod words;
