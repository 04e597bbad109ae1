//! Mirrors the time series of a remote chain-analytics service into a local
//! store and serves them again as bucketed, paginated histories.
//!
//! The library holds the decisions of both halves: how upstream pages are
//! walked and normalized, and how stored samples are selected, grouped into
//! fixed-width buckets where the last sample wins, ordered and cut into
//! pages. Fetching, storing, waiting and floating-point arithmetic are the
//! caller's part.

pub mod clock;
pub mod depth;
pub mod earnings;
pub mod engine;
pub mod history;
pub mod ingest;
pub mod interval;
pub mod laws;
pub mod queries;
pub mod reading;
pub mod runepool;
pub mod scheduler;
pub mod store;
pub mod swaps;
pub mod text;
pub mod walker;
