//! Error taxonomy of the pipeline.
//!
//! Each stage reports its failures through one of these enums; the variants
//! carry a human-readable detail string supplied by the caller.

use vstd::prelude::*;

verus! {

/// Top-level failures of an invocation: missing or invalid store
/// configuration, failed schema bootstrap, or an unparsable timestamp.
#[derive(Debug, PartialEq)]
pub enum SCDMError {
    MissingDBInfo(String),
    InvalidDBInfo(String),
    FailedTableInit(String),
    FailedTimestampParse(String),
}

/// Failures while ingesting a flat event stream.
#[derive(Debug, PartialEq)]
pub enum ParseError {
    InvalidPath(String),
    JSONParseFailed(String, String),
    UnknownIndex(String),
    TimestampParseFailed(String),
    InsertFailed(String),
}

/// Failures while ingesting a nested result tree.
#[derive(Debug, PartialEq)]
pub enum AddError {
    InvalidPath(String),
    JSONParseFailed(String, String),
    UnknownIndex(String),
    PointParseFailed(String),
    TimestampParseFailed(String),
    InsertFailed(String),
}

/// Failures while building or running an analytical query.
#[derive(Debug, PartialEq)]
pub enum QueryError {
    GetError(String),
    SerializeError(String),
    UnknownFormat(String),
    DeleteError(String),
    MetricError(String),
}

/// Wraps a store error message raised during schema bootstrap.
pub fn merr(msg: String) -> (r: SCDMError)
    ensures
        r == SCDMError::FailedTableInit(msg),
{
    SCDMError::FailedTableInit(msg)
}

} // verus!
