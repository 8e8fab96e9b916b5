//! Extraction of a C++ library's public API — namespaces, classes, enums,
//! functions, types and constants — from the entity tree of a C++
//! front-end, into a plain description that a binding generator reads.
//!
//! - `ast`: the front-end's entities and type descriptors, as plain values.
//! - `types`: the type normalizer (indirection shape, residual name, constness).
//! - `value`: the evaluator of constant expressions.
//! - `walk`: the entity walkers, from one entity to one node of the description.
//! - `merge`: folding per-file trees into one, first seen wins.
//! - `covering`: merging is idempotent and keeps names unique in every collection.
//! - `paths`: which files count as first-party headers.
//! - `diag`: failures and the diagnostics reported while skipping them.
pub mod ast;
pub mod covering;
pub mod diag;
pub mod merge;
pub mod paths;
pub mod schema;
pub mod types;
pub mod value;
pub mod walk;
