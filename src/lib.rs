//! Collects every member record of an on-chain collection, resolves each
//! record's off-chain descriptor, and aggregates the declared traits into one
//! report.
//!
//! The library holds the decisions of that pipeline: decoding records,
//! normalising descriptors, flattening attributes, bounding the number of
//! concurrent fetches, retrying queries and accumulating the report. The I/O
//! around it (RPC calls, HTTP fetches, the output file) is driven by the
//! binary.

pub mod text;
pub mod identity;
pub mod record;
pub mod descriptor;
pub mod aggregate;
pub mod pool;
pub mod discovery;
pub mod pipeline;
