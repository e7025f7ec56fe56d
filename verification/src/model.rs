//! The Common Data Model: typed representations of the eight record kinds
//! that one benchmark run decomposes into, plus the derived `Name` rows.
//!
//! Identifiers are 128-bit UUIDs carried as `u128`; instants are milliseconds
//! since the Unix epoch carried as `i64`; a metric value is carried opaquely
//! as the bit pattern of its 64-bit floating-point representation, since the
//! pipeline never computes with it.

use vstd::prelude::*;

verus! {

/// Version marker that every document carries.
#[derive(Debug, PartialEq)]
pub struct CDMSpecJson {
    pub ver: String,
}

/// The index half of a flat event-stream pair: names the record kind.
#[derive(Debug, PartialEq)]
pub struct IndexSpecJson {
    pub _index: String,
}

/// One "index" line of a flat event stream.
#[derive(Debug, PartialEq)]
pub struct IndexJson {
    pub index: IndexSpecJson,
}

/// Root record of a result tree.
#[derive(Debug, PartialEq)]
pub struct RunSpecJson {
    pub run_uuid: u128,
    pub begin: i64,
    pub end: i64,
    pub benchmark: String,
    pub email: String,
    pub name: String,
    pub description: Option<String>,
    pub source: String,
}

/// Foreign-key reference to a run.
#[derive(Debug, PartialEq)]
pub struct RunFKJson {
    pub run_uuid: u128,
}

#[derive(Debug, PartialEq)]
pub struct RunJson {
    pub cdm: CDMSpecJson,
    pub run: RunSpecJson,
}

/// Free-form key/value attached to a run.
#[derive(Debug, PartialEq)]
pub struct TagSpecJson {
    pub name: String,
    pub val: String,
}

#[derive(Debug, PartialEq)]
pub struct TagJson {
    pub cdm: CDMSpecJson,
    pub tag: TagSpecJson,
    pub run: RunFKJson,
}

/// One repetition of the benchmark.
#[derive(Debug, PartialEq)]
pub struct IterationSpecJson {
    pub iteration_uuid: u128,
    pub num: i64,
    pub primary_metric: String,
    pub primary_period: String,
    pub status: String,
    pub path: Option<String>,
}

#[derive(Debug, PartialEq)]
pub struct IterationFKJson {
    pub iteration_uuid: u128,
}

#[derive(Debug, PartialEq)]
pub struct IterationJson {
    pub cdm: CDMSpecJson,
    pub iteration: IterationSpecJson,
    pub run: RunFKJson,
}

/// Benchmark argument of an iteration.
#[derive(Debug, PartialEq)]
pub struct ParamSpecJson {
    pub arg: String,
    pub val: String,
}

#[derive(Debug, PartialEq)]
pub struct ParamJson {
    pub cdm: CDMSpecJson,
    pub param: ParamSpecJson,
    pub iteration: IterationFKJson,
    pub run: RunFKJson,
}

#[derive(Debug, PartialEq)]
pub struct SampleSpecJson {
    pub sample_uuid: u128,
    pub path: Option<String>,
    pub status: String,
    pub num: i64,
}

#[derive(Debug, PartialEq)]
pub struct SampleFKJson {
    pub sample_uuid: u128,
}

#[derive(Debug, PartialEq)]
pub struct SampleJson {
    pub cdm: CDMSpecJson,
    pub sample: SampleSpecJson,
    pub iteration: IterationFKJson,
    pub run: RunFKJson,
}

/// A named measurement window of a sample.
#[derive(Debug, PartialEq)]
pub struct PeriodSpecJson {
    pub period_uuid: u128,
    pub begin: i64,
    pub end: i64,
    pub name: String,
}

#[derive(Debug, PartialEq)]
pub struct PeriodFKJson {
    pub period_uuid: u128,
}

#[derive(Debug, PartialEq)]
pub struct PeriodJson {
    pub cdm: CDMSpecJson,
    pub period: PeriodSpecJson,
    pub iteration: IterationFKJson,
    pub run: RunFKJson,
    pub sample: SampleFKJson,
}

/// One entry of a metric descriptor's attribute map.  `val` is `None` when
/// the source document carried a non-string value there; such entries are
/// dropped from the derived `Name` rows.
#[derive(Debug, PartialEq)]
pub struct NameVal {
    pub name: String,
    pub val: Option<String>,
}

/// Describes one time series and its breakout dimensions.
#[derive(Debug, PartialEq)]
pub struct MetricDescSpecJson {
    pub metric_desc_uuid: u128,
    pub class: String,
    pub names: Vec<NameVal>,
    pub names_list: Vec<String>,
    pub source: String,
    pub metric_type: String,
}

#[derive(Debug, PartialEq)]
pub struct MetricDescFKJson {
    pub metric_desc_uuid: u128,
}

#[derive(Debug, PartialEq)]
pub struct MetricDescJson {
    pub cdm: CDMSpecJson,
    pub metric_desc: MetricDescSpecJson,
    pub iteration: Option<IterationFKJson>,
    pub period: Option<PeriodFKJson>,
    pub run: RunFKJson,
    pub sample: Option<SampleFKJson>,
}

/// One time-series point.  `value` holds the bit pattern of the measured
/// 64-bit floating-point value; `duration` is `end - begin` in milliseconds.
#[derive(Debug, PartialEq)]
pub struct MetricDataSpecJson {
    pub begin: i64,
    pub end: i64,
    pub duration: i64,
    pub value: u64,
}

#[derive(Debug, PartialEq)]
pub struct MetricDataJson {
    pub cdm: CDMSpecJson,
    pub metric_data: MetricDataSpecJson,
    pub metric_desc: MetricDescFKJson,
    pub run: RunFKJson,
}

/// One row of the decomposition of a metric descriptor's attribute map.
#[derive(Debug, PartialEq)]
pub struct Name {
    pub metric_desc_uuid: u128,
    pub name: String,
    pub val: String,
}

/// The record kind named by an index line.
#[derive(Clone, Copy, Debug, PartialEq, Eq, Structural)]
pub enum IndexType {
    Iteration,
    MetricData,
    MetricDesc,
    Param,
    Period,
    Run,
    Sample,
    Tag,
}

/// One record of either input shape, tagged by kind.
#[derive(Debug, PartialEq)]
pub enum BodyJson {
    Iteration(IterationJson),
    MetricData(MetricDataJson),
    MetricDesc(MetricDescJson),
    Param(ParamJson),
    Period(PeriodJson),
    Run(RunJson),
    Sample(SampleJson),
    Tag(TagJson),
    Name(Name),
}

/// Whether a point's duration agrees with its interval, in milliseconds.
pub open spec fn metric_data_duration_ok(md: MetricDataJson) -> bool {
    md.metric_data.duration == md.metric_data.end - md.metric_data.begin
}

} // verus!
