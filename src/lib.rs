//! A hybrid document store: a primary row table kept in lockstep with a
//! vector index and a lexical index, with filtered and fused retrieval.
//!
//! The library holds the logic of the store: identifier checks, statement
//! templates, the metadata filter compiler, embedding checks and batching,
//! de-duplication of vector hits, reciprocal rank fusion, and text splitting.
pub mod error;
pub mod filter;
pub mod fusion;
pub mod hits;
pub mod ident;
pub mod ingest;
pub mod model;
pub mod schema;
pub mod splitter;
pub mod sql;
pub mod store;
