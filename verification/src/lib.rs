//! A verified fetch-orchestration engine for a date-keyed schedule of items.
//!
//! The library models one "run": fetch a schedule document for a date,
//! extract the items of its first date bucket, fan out one download per
//! item, record one outcome per item into a shared observable state, and
//! close the run with a terminal transition. All decisions of the pipeline
//! are verified here; the surrounding I/O (HTTP, filesystem, task
//! scheduling) is left to the embedding program, which feeds results back
//! through the functions of this crate.

pub mod date;
pub mod pipeline;
pub mod state;
pub mod text;
pub mod types;
