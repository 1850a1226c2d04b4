//! Resilient access and persistence layer for a long-running repository
//! crawl: error classification, exponential-backoff retry bookkeeping,
//! REST/GraphQL response interpretation, a durable cursor store and an
//! append-only CSV result sink.

pub mod api;
pub mod csv_row;
pub mod data;
pub mod digits;
pub mod errors;
pub mod retry;
pub mod state_json;
pub mod text;
