//! Ingestion and query planning for a relational store of benchmark results.
//!
//! The crate models the Common Data Model (CDM): a tree of benchmark runs,
//! their iterations, samples, measurement periods, metric descriptors and
//! time-series points.  It normalizes input documents into flat,
//! foreign-key-consistent rows, builds the parameterized SQL statements that
//! write and query them, and proves the structural guarantees the pipeline
//! relies on: durations are consistent, no row is orphaned, a batch commits
//! only when every statement succeeded, and windowed aggregation partitions
//! the reference interval exactly.
//!
//! Execution of the statements against the store, file handling and output
//! rendering are left to the embedding application.

pub mod errors;
pub mod fk;
pub mod metricq;
pub mod model;
pub mod ingest;
pub mod input;
pub mod names;
pub mod statement;
pub mod synth;
pub mod timeparse;
pub mod txn;
pub mod unpack;
pub mod window;
pub mod writer;

pub use errors::merr;
pub use errors::SCDMError;
