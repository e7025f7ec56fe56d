//! The batch writer: multi-row INSERT statements for every record kind.
//!
//! Each builder returns the exact statement text and ordered parameters for
//! its records; a batch of more than [`CHUNK_ROWS`] metric descriptors, names
//! or data points is split into several statements so one statement stays
//! under the store's bound-parameter limit.  Executing the statements, inside
//! one transaction, is the embedding application's job (see `txn`).

use vstd::prelude::*;

use crate::model::{
    IterationJson, MetricDataJson, MetricDescJson, Name, ParamJson, PeriodJson, RunJson,
    SampleJson, TagJson,
};
use crate::names::{names_json_text, names_list_text, push_names_json, push_names_list};
use crate::statement::{flat_params, multi_row_insert, values_tuples, SqlParam, Statement};
use crate::synth::{lookup_global_period, spec_lookup_global_period, GlobalResource};

verus! {

/// Rows per INSERT statement for the three high-volume kinds.
pub const CHUNK_ROWS: usize = 1024;

/// The bind parameters of one `run` row.
pub open spec fn run_binds(x: RunJson) -> Seq<SqlParam> {
    seq![
        SqlParam::Uuid(x.run.run_uuid),
        SqlParam::Ts(x.run.begin),
        SqlParam::Ts(x.run.end),
        SqlParam::Str(x.run.benchmark),
        SqlParam::Str(x.run.email),
        SqlParam::Str(x.run.name),
        SqlParam::OptStr(x.run.description),
        SqlParam::Str(x.run.source),
    ]
}

/// The bind parameters of one `tag` row.
pub open spec fn tag_binds(x: TagJson) -> Seq<SqlParam> {
    seq![
        SqlParam::Uuid(x.run.run_uuid),
        SqlParam::Str(x.tag.name),
        SqlParam::Str(x.tag.val),
    ]
}

/// The bind parameters of one `iteration` row.
pub open spec fn iteration_binds(x: IterationJson) -> Seq<SqlParam> {
    seq![
        SqlParam::Uuid(x.iteration.iteration_uuid),
        SqlParam::Uuid(x.run.run_uuid),
        SqlParam::I64(x.iteration.num),
        SqlParam::Str(x.iteration.status),
        SqlParam::OptStr(x.iteration.path),
        SqlParam::Str(x.iteration.primary_metric),
        SqlParam::Str(x.iteration.primary_period),
    ]
}

/// The bind parameters of one `param` row.
pub open spec fn param_binds(x: ParamJson) -> Seq<SqlParam> {
    seq![
        SqlParam::Uuid(x.iteration.iteration_uuid),
        SqlParam::Str(x.param.arg),
        SqlParam::Str(x.param.val),
    ]
}

/// The bind parameters of one `sample` row.
pub open spec fn sample_binds(x: SampleJson) -> Seq<SqlParam> {
    seq![
        SqlParam::Uuid(x.sample.sample_uuid),
        SqlParam::Uuid(x.iteration.iteration_uuid),
        SqlParam::I64(x.sample.num),
        SqlParam::Str(x.sample.status),
        SqlParam::OptStr(x.sample.path),
    ]
}

/// The bind parameters of one `period` row.
pub open spec fn period_binds(x: PeriodJson) -> Seq<SqlParam> {
    seq![
        SqlParam::Uuid(x.period.period_uuid),
        SqlParam::Uuid(x.sample.sample_uuid),
        SqlParam::Ts(x.period.begin),
        SqlParam::Ts(x.period.end),
        SqlParam::Str(x.period.name),
    ]
}

/// The period reference written for a metric descriptor: its own, or the
/// synthesized placeholder period of its run.
pub open spec fn resolved_period(
    x: MetricDescJson,
    globals: Seq<(u128, GlobalResource)>,
) -> Option<u128> {
    match x.period {
        Option::Some(p) => Option::Some(p.period_uuid),
        Option::None => spec_lookup_global_period(globals, x.run.run_uuid),
    }
}

/// Whether `row` holds the bind parameters of one `metric_desc` row: the
/// rendered `names_list` and `names` texts are pinned by their contents.
pub open spec fn metric_desc_row_matches(
    x: MetricDescJson,
    globals: Seq<(u128, GlobalResource)>,
    row: Seq<SqlParam>,
) -> bool {
    &&& row.len() == 7
    &&& row[0] == SqlParam::Uuid(x.metric_desc.metric_desc_uuid)
    &&& row[1] == SqlParam::OptUuid(resolved_period(x, globals))
    &&& row[2] == SqlParam::Str(x.metric_desc.class)
    &&& row[3] == SqlParam::Str(x.metric_desc.metric_type)
    &&& row[4] == SqlParam::Str(x.metric_desc.source)
    &&& row[5] matches SqlParam::Str(t) && t@ == names_list_text(
        x.metric_desc.names_list@.map_values(|s: String| s@),
    )
    &&& row[6] matches SqlParam::Str(t) && t@ == names_json_text(x.metric_desc.names@)
}

/// The bind parameters of one `name` row.
pub open spec fn name_binds(x: Name) -> Seq<SqlParam> {
    seq![
        SqlParam::Uuid(x.metric_desc_uuid),
        SqlParam::Str(x.name),
        SqlParam::Str(x.val),
    ]
}

/// The bind parameters of one `metric_data` row.
pub open spec fn metric_data_binds(x: MetricDataJson) -> Seq<SqlParam> {
    seq![
        SqlParam::Uuid(x.metric_desc.metric_desc_uuid),
        SqlParam::F64Bits(x.metric_data.value),
        SqlParam::Ts(x.metric_data.begin),
        SqlParam::Ts(x.metric_data.end),
        SqlParam::I64(x.metric_data.duration),
    ]
}

fn clone_opt_string(x: &Option<String>) -> (r: Option<String>)
    ensures
        r == x,
{
    match x {
        Option::None => Option::None,
        Option::Some(s) => Option::Some(s.clone()),
    }
}

fn run_row(x: &RunJson) -> (r: Vec<SqlParam>)
    ensures
        r@ == run_binds(*x),
{
    let mut r: Vec<SqlParam> = Vec::new();
    r.push(SqlParam::Uuid(x.run.run_uuid));
    r.push(SqlParam::Ts(x.run.begin));
    r.push(SqlParam::Ts(x.run.end));
    r.push(SqlParam::Str(x.run.benchmark.clone()));
    r.push(SqlParam::Str(x.run.email.clone()));
    r.push(SqlParam::Str(x.run.name.clone()));
    r.push(SqlParam::OptStr(clone_opt_string(&x.run.description)));
    r.push(SqlParam::Str(x.run.source.clone()));
    proof {
        assert(r@ =~= run_binds(*x));
    }
    r
}

fn tag_row(x: &TagJson) -> (r: Vec<SqlParam>)
    ensures
        r@ == tag_binds(*x),
{
    let mut r: Vec<SqlParam> = Vec::new();
    r.push(SqlParam::Uuid(x.run.run_uuid));
    r.push(SqlParam::Str(x.tag.name.clone()));
    r.push(SqlParam::Str(x.tag.val.clone()));
    proof {
        assert(r@ =~= tag_binds(*x));
    }
    r
}

fn iteration_row(x: &IterationJson) -> (r: Vec<SqlParam>)
    ensures
        r@ == iteration_binds(*x),
{
    let mut r: Vec<SqlParam> = Vec::new();
    r.push(SqlParam::Uuid(x.iteration.iteration_uuid));
    r.push(SqlParam::Uuid(x.run.run_uuid));
    r.push(SqlParam::I64(x.iteration.num));
    r.push(SqlParam::Str(x.iteration.status.clone()));
    r.push(SqlParam::OptStr(clone_opt_string(&x.iteration.path)));
    r.push(SqlParam::Str(x.iteration.primary_metric.clone()));
    r.push(SqlParam::Str(x.iteration.primary_period.clone()));
    proof {
        assert(r@ =~= iteration_binds(*x));
    }
    r
}

fn param_row(x: &ParamJson) -> (r: Vec<SqlParam>)
    ensures
        r@ == param_binds(*x),
{
    let mut r: Vec<SqlParam> = Vec::new();
    r.push(SqlParam::Uuid(x.iteration.iteration_uuid));
    r.push(SqlParam::Str(x.param.arg.clone()));
    r.push(SqlParam::Str(x.param.val.clone()));
    proof {
        assert(r@ =~= param_binds(*x));
    }
    r
}

fn sample_row(x: &SampleJson) -> (r: Vec<SqlParam>)
    ensures
        r@ == sample_binds(*x),
{
    let mut r: Vec<SqlParam> = Vec::new();
    r.push(SqlParam::Uuid(x.sample.sample_uuid));
    r.push(SqlParam::Uuid(x.iteration.iteration_uuid));
    r.push(SqlParam::I64(x.sample.num));
    r.push(SqlParam::Str(x.sample.status.clone()));
    r.push(SqlParam::OptStr(clone_opt_string(&x.sample.path)));
    proof {
        assert(r@ =~= sample_binds(*x));
    }
    r
}

fn period_row(x: &PeriodJson) -> (r: Vec<SqlParam>)
    ensures
        r@ == period_binds(*x),
{
    let mut r: Vec<SqlParam> = Vec::new();
    r.push(SqlParam::Uuid(x.period.period_uuid));
    r.push(SqlParam::Uuid(x.sample.sample_uuid));
    r.push(SqlParam::Ts(x.period.begin));
    r.push(SqlParam::Ts(x.period.end));
    r.push(SqlParam::Str(x.period.name.clone()));
    proof {
        assert(r@ =~= period_binds(*x));
    }
    r
}

fn metric_desc_row(x: &MetricDescJson, globals: &Vec<(u128, GlobalResource)>) -> (r: Vec<SqlParam>)
    ensures
        metric_desc_row_matches(*x, globals@, r@),
{
    let period: Option<u128> = match &x.period {
        Option::Some(p) => Option::Some(p.period_uuid),
        Option::None => lookup_global_period(globals, x.run.run_uuid),
    };
    let mut r: Vec<SqlParam> = Vec::new();
    r.push(SqlParam::Uuid(x.metric_desc.metric_desc_uuid));
    r.push(SqlParam::OptUuid(period));
    r.push(SqlParam::Str(x.metric_desc.class.clone()));
    r.push(SqlParam::Str(x.metric_desc.metric_type.clone()));
    r.push(SqlParam::Str(x.metric_desc.source.clone()));
    r.push(SqlParam::Str(push_names_list(&x.metric_desc.names_list)));
    r.push(SqlParam::Str(push_names_json(&x.metric_desc.names)));
    r
}

fn name_row(x: &Name) -> (r: Vec<SqlParam>)
    ensures
        r@ == name_binds(*x),
{
    let mut r: Vec<SqlParam> = Vec::new();
    r.push(SqlParam::Uuid(x.metric_desc_uuid));
    r.push(SqlParam::Str(x.name.clone()));
    r.push(SqlParam::Str(x.val.clone()));
    proof {
        assert(r@ =~= name_binds(*x));
    }
    r
}

fn metric_data_row(x: &MetricDataJson) -> (r: Vec<SqlParam>)
    ensures
        r@ == metric_data_binds(*x),
{
    let mut r: Vec<SqlParam> = Vec::new();
    r.push(SqlParam::Uuid(x.metric_desc.metric_desc_uuid));
    r.push(SqlParam::F64Bits(x.metric_data.value));
    r.push(SqlParam::Ts(x.metric_data.begin));
    r.push(SqlParam::Ts(x.metric_data.end));
    r.push(SqlParam::I64(x.metric_data.duration));
    proof {
        assert(r@ =~= metric_data_binds(*x));
    }
    r
}

/// The number of statements a batch of `n` rows splits into.
pub open spec fn num_chunks(n: nat) -> nat
    decreases n,
{
    if n == 0 {
        0
    } else if n <= 1024 {
        1
    } else {
        1 + num_chunks((n - 1024) as nat)
    }
}



/// What the single INSERT statement for a non-empty `runs` list holds.
pub open spec fn run_stmt_ok(recs: Seq<RunJson>, st: Statement) -> bool {
    &&& st.sql@ == "INSERT INTO run (run_uuid, begin, finish, benchmark, email, name, description, source) VALUES "@ + values_tuples(8, recs.len() as nat)
    &&& st.params@ == flat_params(recs.map_values(|x: RunJson| run_binds(x)))
    &&& st.rows == recs.len()
}


/// What the single INSERT statement for a non-empty `tags` list holds.
pub open spec fn tag_stmt_ok(recs: Seq<TagJson>, st: Statement) -> bool {
    &&& st.sql@ == "INSERT INTO tag (run_uuid, name, val) VALUES "@ + values_tuples(3, recs.len() as nat)
    &&& st.params@ == flat_params(recs.map_values(|x: TagJson| tag_binds(x)))
    &&& st.rows == recs.len()
}


/// What the single INSERT statement for a non-empty `iterations` list holds.
pub open spec fn iteration_stmt_ok(recs: Seq<IterationJson>, st: Statement) -> bool {
    &&& st.sql@ == "INSERT INTO iteration (iteration_uuid, run_uuid, num, status, path, primary_metric, primary_period) VALUES "@ + values_tuples(7, recs.len() as nat)
    &&& st.params@ == flat_params(recs.map_values(|x: IterationJson| iteration_binds(x)))
    &&& st.rows == recs.len()
}


/// What the single INSERT statement for a non-empty `params` list holds.
pub open spec fn param_stmt_ok(recs: Seq<ParamJson>, st: Statement) -> bool {
    &&& st.sql@ == "INSERT INTO param (iteration_uuid, arg, val) VALUES "@ + values_tuples(3, recs.len() as nat)
    &&& st.params@ == flat_params(recs.map_values(|x: ParamJson| param_binds(x)))
    &&& st.rows == recs.len()
}


/// What the single INSERT statement for a non-empty `samples` list holds.
pub open spec fn sample_stmt_ok(recs: Seq<SampleJson>, st: Statement) -> bool {
    &&& st.sql@ == "INSERT INTO sample (sample_uuid, iteration_uuid, num, status, path) VALUES "@ + values_tuples(5, recs.len() as nat)
    &&& st.params@ == flat_params(recs.map_values(|x: SampleJson| sample_binds(x)))
    &&& st.rows == recs.len()
}


/// What the single INSERT statement for a non-empty `periods` list holds.
pub open spec fn period_stmt_ok(recs: Seq<PeriodJson>, st: Statement) -> bool {
    &&& st.sql@ == "INSERT INTO period (period_uuid, sample_uuid, begin, finish, name) VALUES "@ + values_tuples(5, recs.len() as nat)
    &&& st.params@ == flat_params(recs.map_values(|x: PeriodJson| period_binds(x)))
    &&& st.rows == recs.len()
}

/// Builds the bulk INSERT for a list of `run` records; `None` for an
/// empty list.
pub fn insert_runs(runs: &Vec<RunJson>) -> (r: Option<Statement>)
    requires
        runs@.len() * 8 + 1 <= u64::MAX,
    ensures
        (runs@.len() == 0) == (r is None),
        r matches Option::Some(st) ==> run_stmt_ok(runs@, st),
{
    if runs.len() == 0 {
        return Option::None;
    }
    let mut rows: Vec<Vec<SqlParam>> = Vec::new();
    let mut i: usize = 0;
    while i < runs.len()
        invariant
            0 <= i <= runs@.len(),
            rows@.len() == i,
            forall|k: int| 0 <= k < i ==> (#[trigger] rows@[k])@ == run_binds(runs@[k]),
        decreases runs@.len() - i,
    {
        rows.push(run_row(&runs[i]));
        i = i + 1;
    }
    proof {
        assert(rows@.map_values(|v: Vec<SqlParam>| v@) =~= runs@.map_values(
            |x: RunJson| run_binds(x),
        ));
        assert forall|k: int| 0 <= k < rows@.len() implies (#[trigger] rows@[k]).len() == 8 by {
            assert(rows@[k]@ == run_binds(runs@[k]));
        }
    }
    Option::Some(
        multi_row_insert(
            "INSERT INTO run (run_uuid, begin, finish, benchmark, email, name, description, source) VALUES ",
            8,
            rows,
        ),
    )
}


/// Builds the bulk INSERT for a list of `tag` records; `None` for an
/// empty list.
pub fn insert_tags(tags: &Vec<TagJson>) -> (r: Option<Statement>)
    requires
        tags@.len() * 3 + 1 <= u64::MAX,
    ensures
        (tags@.len() == 0) == (r is None),
        r matches Option::Some(st) ==> tag_stmt_ok(tags@, st),
{
    if tags.len() == 0 {
        return Option::None;
    }
    let mut rows: Vec<Vec<SqlParam>> = Vec::new();
    let mut i: usize = 0;
    while i < tags.len()
        invariant
            0 <= i <= tags@.len(),
            rows@.len() == i,
            forall|k: int| 0 <= k < i ==> (#[trigger] rows@[k])@ == tag_binds(tags@[k]),
        decreases tags@.len() - i,
    {
        rows.push(tag_row(&tags[i]));
        i = i + 1;
    }
    proof {
        assert(rows@.map_values(|v: Vec<SqlParam>| v@) =~= tags@.map_values(
            |x: TagJson| tag_binds(x),
        ));
        assert forall|k: int| 0 <= k < rows@.len() implies (#[trigger] rows@[k]).len() == 3 by {
            assert(rows@[k]@ == tag_binds(tags@[k]));
        }
    }
    Option::Some(
        multi_row_insert(
            "INSERT INTO tag (run_uuid, name, val) VALUES ",
            3,
            rows,
        ),
    )
}


/// Builds the bulk INSERT for a list of `iteration` records; `None` for an
/// empty list.
pub fn insert_iterations(iterations: &Vec<IterationJson>) -> (r: Option<Statement>)
    requires
        iterations@.len() * 7 + 1 <= u64::MAX,
    ensures
        (iterations@.len() == 0) == (r is None),
        r matches Option::Some(st) ==> iteration_stmt_ok(iterations@, st),
{
    if iterations.len() == 0 {
        return Option::None;
    }
    let mut rows: Vec<Vec<SqlParam>> = Vec::new();
    let mut i: usize = 0;
    while i < iterations.len()
        invariant
            0 <= i <= iterations@.len(),
            rows@.len() == i,
            forall|k: int| 0 <= k < i ==> (#[trigger] rows@[k])@ == iteration_binds(iterations@[k]),
        decreases iterations@.len() - i,
    {
        rows.push(iteration_row(&iterations[i]));
        i = i + 1;
    }
    proof {
        assert(rows@.map_values(|v: Vec<SqlParam>| v@) =~= iterations@.map_values(
            |x: IterationJson| iteration_binds(x),
        ));
        assert forall|k: int| 0 <= k < rows@.len() implies (#[trigger] rows@[k]).len() == 7 by {
            assert(rows@[k]@ == iteration_binds(iterations@[k]));
        }
    }
    Option::Some(
        multi_row_insert(
            "INSERT INTO iteration (iteration_uuid, run_uuid, num, status, path, primary_metric, primary_period) VALUES ",
            7,
            rows,
        ),
    )
}


/// Builds the bulk INSERT for a list of `param` records; `None` for an
/// empty list.
pub fn insert_params(params: &Vec<ParamJson>) -> (r: Option<Statement>)
    requires
        params@.len() * 3 + 1 <= u64::MAX,
    ensures
        (params@.len() == 0) == (r is None),
        r matches Option::Some(st) ==> param_stmt_ok(params@, st),
{
    if params.len() == 0 {
        return Option::None;
    }
    let mut rows: Vec<Vec<SqlParam>> = Vec::new();
    let mut i: usize = 0;
    while i < params.len()
        invariant
            0 <= i <= params@.len(),
            rows@.len() == i,
            forall|k: int| 0 <= k < i ==> (#[trigger] rows@[k])@ == param_binds(params@[k]),
        decreases params@.len() - i,
    {
        rows.push(param_row(&params[i]));
        i = i + 1;
    }
    proof {
        assert(rows@.map_values(|v: Vec<SqlParam>| v@) =~= params@.map_values(
            |x: ParamJson| param_binds(x),
        ));
        assert forall|k: int| 0 <= k < rows@.len() implies (#[trigger] rows@[k]).len() == 3 by {
            assert(rows@[k]@ == param_binds(params@[k]));
        }
    }
    Option::Some(
        multi_row_insert(
            "INSERT INTO param (iteration_uuid, arg, val) VALUES ",
            3,
            rows,
        ),
    )
}


/// Builds the bulk INSERT for a list of `sample` records; `None` for an
/// empty list.
pub fn insert_samples(samples: &Vec<SampleJson>) -> (r: Option<Statement>)
    requires
        samples@.len() * 5 + 1 <= u64::MAX,
    ensures
        (samples@.len() == 0) == (r is None),
        r matches Option::Some(st) ==> sample_stmt_ok(samples@, st),
{
    if samples.len() == 0 {
        return Option::None;
    }
    let mut rows: Vec<Vec<SqlParam>> = Vec::new();
    let mut i: usize = 0;
    while i < samples.len()
        invariant
            0 <= i <= samples@.len(),
            rows@.len() == i,
            forall|k: int| 0 <= k < i ==> (#[trigger] rows@[k])@ == sample_binds(samples@[k]),
        decreases samples@.len() - i,
    {
        rows.push(sample_row(&samples[i]));
        i = i + 1;
    }
    proof {
        assert(rows@.map_values(|v: Vec<SqlParam>| v@) =~= samples@.map_values(
            |x: SampleJson| sample_binds(x),
        ));
        assert forall|k: int| 0 <= k < rows@.len() implies (#[trigger] rows@[k]).len() == 5 by {
            assert(rows@[k]@ == sample_binds(samples@[k]));
        }
    }
    Option::Some(
        multi_row_insert(
            "INSERT INTO sample (sample_uuid, iteration_uuid, num, status, path) VALUES ",
            5,
            rows,
        ),
    )
}


/// Builds the bulk INSERT for a list of `period` records; `None` for an
/// empty list.
pub fn insert_periods(periods: &Vec<PeriodJson>) -> (r: Option<Statement>)
    requires
        periods@.len() * 5 + 1 <= u64::MAX,
    ensures
        (periods@.len() == 0) == (r is None),
        r matches Option::Some(st) ==> period_stmt_ok(periods@, st),
{
    if periods.len() == 0 {
        return Option::None;
    }
    let mut rows: Vec<Vec<SqlParam>> = Vec::new();
    let mut i: usize = 0;
    while i < periods.len()
        invariant
            0 <= i <= periods@.len(),
            rows@.len() == i,
            forall|k: int| 0 <= k < i ==> (#[trigger] rows@[k])@ == period_binds(periods@[k]),
        decreases periods@.len() - i,
    {
        rows.push(period_row(&periods[i]));
        i = i + 1;
    }
    proof {
        assert(rows@.map_values(|v: Vec<SqlParam>| v@) =~= periods@.map_values(
            |x: PeriodJson| period_binds(x),
        ));
        assert forall|k: int| 0 <= k < rows@.len() implies (#[trigger] rows@[k]).len() == 5 by {
            assert(rows@[k]@ == period_binds(periods@[k]));
        }
    }
    Option::Some(
        multi_row_insert(
            "INSERT INTO period (period_uuid, sample_uuid, begin, finish, name) VALUES ",
            5,
            rows,
        ),
    )
}


/// What statement `i` of a chunked `names` batch holds.
pub open spec fn name_stmt_ok(recs: Seq<Name>, i: int, st: Statement) -> bool {
    let lo = i * 1024;
    let hi = if lo + 1024 <= recs.len() {
        lo + 1024
    } else {
        recs.len() as int
    };
    &&& st.sql@ == "INSERT INTO name (metric_desc_uuid, name, val) VALUES "@ + values_tuples(3, (hi - lo) as nat)
    &&& st.rows == hi - lo
    &&& st.params@ == flat_params(recs.subrange(lo, hi).map_values(|x: Name| name_binds(x)))
}

/// Builds the bulk INSERTs for a batch of `names` records, at most
/// [`CHUNK_ROWS`] rows per statement.
pub fn insert_names(names: &Vec<Name>) -> (r: Vec<Statement>)
    ensures
        r@.len() == num_chunks(names@.len() as nat),
        forall|i: int| 0 <= i < r@.len() ==> name_stmt_ok(names@, i, #[trigger] r@[i]),
{
    let n = names.len();
    let mut out: Vec<Statement> = Vec::new();
    let mut idx: usize = 0;
    while idx < n
        invariant
            0 <= idx <= n,
            n == names@.len(),
            idx == out@.len() * 1024 || idx == n,
            out@.len() + num_chunks((n - idx) as nat) == num_chunks(n as nat),
            forall|i: int| 0 <= i < out@.len() ==> name_stmt_ok(names@, i, #[trigger] out@[i]),
        decreases n - idx,
    {
        let m: usize = if n - idx >= 1024 {
            1024
        } else {
            n - idx
        };
        let mut rows: Vec<Vec<SqlParam>> = Vec::new();
        let mut j: usize = 0;
        while j < m
            invariant
                0 <= j <= m,
                idx + m <= n,
                n == names@.len(),
                rows@.len() == j,
                forall|k: int|
                    0 <= k < j ==> (#[trigger] rows@[k])@ == name_binds(names@[idx + k]),
            decreases m - j,
        {
            rows.push(name_row(&names[idx + j]));
            j = j + 1;
        }
        let ghost rs = rows@.map_values(|v: Vec<SqlParam>| v@);
        proof {
            assert(rs =~= names@.subrange(idx as int, idx + m).map_values(
                |x: Name| name_binds(x),
            ));
            assert forall|k: int| 0 <= k < rows@.len() implies (#[trigger] rows@[k]).len()
                == 3 by {
                assert(rows@[k]@ == name_binds(names@[idx + k]));
            }
        }
        let st = multi_row_insert(
            "INSERT INTO name (metric_desc_uuid, name, val) VALUES ",
            3,
            rows,
        );
        proof {
            assert(name_stmt_ok(names@, out@.len() as int, st));
        }
        out.push(st);
        idx = idx + m;
    }
    out
}


/// What statement `i` of a chunked `metric_datas` batch holds.
pub open spec fn metric_data_stmt_ok(recs: Seq<MetricDataJson>, i: int, st: Statement) -> bool {
    let lo = i * 1024;
    let hi = if lo + 1024 <= recs.len() {
        lo + 1024
    } else {
        recs.len() as int
    };
    &&& st.sql@ == "INSERT INTO metric_data (metric_desc_uuid, value, begin, finish, duration) VALUES "@ + values_tuples(5, (hi - lo) as nat)
    &&& st.rows == hi - lo
    &&& st.params@ == flat_params(recs.subrange(lo, hi).map_values(|x: MetricDataJson| metric_data_binds(x)))
}

/// Builds the bulk INSERTs for a batch of `metric_datas` records, at most
/// [`CHUNK_ROWS`] rows per statement.
pub fn insert_metric_datas(metric_datas: &Vec<MetricDataJson>) -> (r: Vec<Statement>)
    ensures
        r@.len() == num_chunks(metric_datas@.len() as nat),
        forall|i: int| 0 <= i < r@.len() ==> metric_data_stmt_ok(metric_datas@, i, #[trigger] r@[i]),
{
    let n = metric_datas.len();
    let mut out: Vec<Statement> = Vec::new();
    let mut idx: usize = 0;
    while idx < n
        invariant
            0 <= idx <= n,
            n == metric_datas@.len(),
            idx == out@.len() * 1024 || idx == n,
            out@.len() + num_chunks((n - idx) as nat) == num_chunks(n as nat),
            forall|i: int| 0 <= i < out@.len() ==> metric_data_stmt_ok(metric_datas@, i, #[trigger] out@[i]),
        decreases n - idx,
    {
        let m: usize = if n - idx >= 1024 {
            1024
        } else {
            n - idx
        };
        let mut rows: Vec<Vec<SqlParam>> = Vec::new();
        let mut j: usize = 0;
        while j < m
            invariant
                0 <= j <= m,
                idx + m <= n,
                n == metric_datas@.len(),
                rows@.len() == j,
                forall|k: int|
                    0 <= k < j ==> (#[trigger] rows@[k])@ == metric_data_binds(metric_datas@[idx + k]),
            decreases m - j,
        {
            rows.push(metric_data_row(&metric_datas[idx + j]));
            j = j + 1;
        }
        let ghost rs = rows@.map_values(|v: Vec<SqlParam>| v@);
        proof {
            assert(rs =~= metric_datas@.subrange(idx as int, idx + m).map_values(
                |x: MetricDataJson| metric_data_binds(x),
            ));
            assert forall|k: int| 0 <= k < rows@.len() implies (#[trigger] rows@[k]).len()
                == 5 by {
                assert(rows@[k]@ == metric_data_binds(metric_datas@[idx + k]));
            }
        }
        let st = multi_row_insert(
            "INSERT INTO metric_data (metric_desc_uuid, value, begin, finish, duration) VALUES ",
            5,
            rows,
        );
        proof {
            assert(metric_data_stmt_ok(metric_datas@, out@.len() as int, st));
        }
        out.push(st);
        idx = idx + m;
    }
    out
}


/// What statement `i` of a chunked `metric_descs` batch holds.
pub open spec fn metric_desc_stmt_ok(
    recs: Seq<MetricDescJson>,
    globals: Seq<(u128, GlobalResource)>,
    i: int,
    st: Statement,
) -> bool {
    let lo = i * 1024;
    let hi = if lo + 1024 <= recs.len() {
        lo + 1024
    } else {
        recs.len() as int
    };
    &&& st.sql@
        == "INSERT INTO metric_desc (metric_desc_uuid, period_uuid, class, metric_type, source, names_list, names) VALUES "@
        + values_tuples(7, (hi - lo) as nat)
    &&& st.rows == hi - lo
    &&& st.params@.len() == (hi - lo) * 7
    &&& forall|j: int|
        lo <= j < hi ==> metric_desc_row_matches(
            recs[j],
            globals,
            st.params@.subrange((j - lo) * 7, (j - lo) * 7 + 7),
        )
}

/// Builds the bulk INSERTs for a batch of metric descriptors, at most
/// [`CHUNK_ROWS`] rows per statement, resolving a missing period reference
/// through the run's synthesized placeholder chain.
pub fn insert_metric_descs(
    globals: &Vec<(u128, GlobalResource)>,
    metric_descs: &Vec<MetricDescJson>,
) -> (r: Vec<Statement>)
    ensures
        r@.len() == num_chunks(metric_descs@.len() as nat),
        forall|i: int|
            0 <= i < r@.len() ==> metric_desc_stmt_ok(
                metric_descs@,
                globals@,
                i,
                #[trigger] r@[i],
            ),
{
    let n = metric_descs.len();
    let mut out: Vec<Statement> = Vec::new();
    let mut idx: usize = 0;
    while idx < n
        invariant
            0 <= idx <= n,
            n == metric_descs@.len(),
            idx == out@.len() * 1024 || idx == n,
            out@.len() + num_chunks((n - idx) as nat) == num_chunks(n as nat),
            forall|i: int|
                0 <= i < out@.len() ==> metric_desc_stmt_ok(
                    metric_descs@,
                    globals@,
                    i,
                    #[trigger] out@[i],
                ),
        decreases n - idx,
    {
        let m: usize = if n - idx >= 1024 {
            1024
        } else {
            n - idx
        };
        let mut rows: Vec<Vec<SqlParam>> = Vec::new();
        let mut j: usize = 0;
        while j < m
            invariant
                0 <= j <= m,
                idx + m <= n,
                n == metric_descs@.len(),
                rows@.len() == j,
                forall|k: int|
                    0 <= k < j ==> metric_desc_row_matches(
                        metric_descs@[idx + k],
                        globals@,
                        (#[trigger] rows@[k])@,
                    ),
            decreases m - j,
        {
            rows.push(metric_desc_row(&metric_descs[idx + j], globals));
            j = j + 1;
        }
        let ghost rs = rows@.map_values(|v: Vec<SqlParam>| v@);
        proof {
            assert forall|k: int| 0 <= k < rows@.len() implies (#[trigger] rows@[k]).len()
                == 7 by {
                assert(metric_desc_row_matches(metric_descs@[idx + k], globals@, rows@[k]@));
            }
            assert forall|k: int| 0 <= k < rs.len() implies (#[trigger] rs[k]).len() == 7 by {
                assert(rs[k] == rows@[k]@);
            }
        }
        let st = multi_row_insert(
            "INSERT INTO metric_desc (metric_desc_uuid, period_uuid, class, metric_type, source, names_list, names) VALUES ",
            7,
            rows,
        );
        proof {
            crate::statement::lemma_flat_params_len(rs, 7);
            let c = out@.len() as int;
            let lo = c * 1024;
            let hi = if lo + 1024 <= metric_descs@.len() {
                lo + 1024
            } else {
                metric_descs@.len() as int
            };
            assert(lo == idx as int);
            assert(hi - lo == m);
            assert forall|j2: int| lo <= j2 < hi implies metric_desc_row_matches(
                metric_descs@[j2],
                globals@,
                st.params@.subrange((j2 - lo) * 7, (j2 - lo) * 7 + 7),
            ) by {
                crate::statement::lemma_flat_params_index(rs, 7, j2 - lo);
                assert(rs[j2 - lo] == rows@[j2 - lo]@);
                assert(metric_desc_row_matches(metric_descs@[j2], globals@, rs[j2 - lo]));
            }
            assert(metric_desc_stmt_ok(metric_descs@, globals@, c, st));
        }
        out.push(st);
        idx = idx + m;
    }
    out
}

} // verus!
