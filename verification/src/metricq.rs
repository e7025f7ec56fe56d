//! The metric query builder: one parameterized SQL statement answering
//! "values of metric X, broken out by dimensions D1..Dn, over windows
//! W1..Wk, aggregated by A".
//!
//! The statement joins the hierarchy, adds one correlated subquery per
//! breakout dimension (the first is the anchor, later ones chain on the
//! matching descriptor), generates the windows of interest from the time
//! selector, filters, and optionally aggregates.  The result is the
//! statement text with its ordered bind parameters; executing it is the
//! embedding application's job.

use vstd::prelude::*;

use crate::errors::QueryError;
use crate::statement::{dec_digits, param_view, placeholder, push_placeholder, SqlParam, SqlParamView, Statement};

verus! {

/// The server-side aggregation applied to the matched values.
#[derive(Clone, Copy, Debug, PartialEq, Eq, Structural)]
pub enum Aggregator {
    Passthrough,
    Avg,
    WeightedAvg,
    Stddev,
    Min,
    Max,
}

/// The inputs of one metric query.  Instants are milliseconds since the
/// Unix epoch; value filters carry the bit pattern of the 64-bit
/// floating-point threshold.  `ref_period` and the `begin`/`finish` pair
/// are mutually exclusive time selectors.
#[derive(Debug, PartialEq)]
pub struct MetricArgs {
    pub run_uuid: Option<u128>,
    pub iteration_uuid: Option<u128>,
    pub metric_desc_uuid: Option<u128>,
    pub period_uuid: Option<u128>,
    pub metric_type: Option<String>,
    pub ref_period: Option<u128>,
    pub begin: Option<i64>,
    pub finish: Option<i64>,
    pub resolution: u64,
    pub value_eq: Option<u64>,
    pub value_lt: Option<u64>,
    pub value_gt: Option<u64>,
    pub name: Option<Vec<String>>,
    pub aggregator: Aggregator,
}

/// The index of the first `=` in `s`, or `s.len()` if there is none.
pub open spec fn first_eq(s: Seq<char>) -> int
    decreases s.len(),
{
    if s.len() == 0 {
        0
    } else if s[0] == '=' {
        0
    } else {
        1 + first_eq(s.skip(1))
    }
}

proof fn lemma_first_eq_bounds(s: Seq<char>)
    ensures
        0 <= first_eq(s) <= s.len(),
        forall|j: int| 0 <= j < first_eq(s) ==> s[j] != '=',
        first_eq(s) < s.len() ==> s[first_eq(s)] == '=',
    decreases s.len(),
{
    if s.len() > 0 && s[0] != '=' {
        lemma_first_eq_bounds(s.skip(1));
        assert forall|j: int| 0 <= j < first_eq(s) implies s[j] != '=' by {
            if j > 0 {
                assert(s.skip(1)[j - 1] != '=');
            }
        }
        if first_eq(s) < s.len() {
            assert(s.skip(1)[first_eq(s) - 1] == s[first_eq(s)]);
        }
    }
}

/// The dimension name of a breakout token: the text before the first `=`.
pub open spec fn token_name(s: Seq<char>) -> Seq<char> {
    s.take(first_eq(s))
}

/// The dimension value of a breakout token: the text between the first and
/// second `=`, if the token has one.
pub open spec fn token_value(s: Seq<char>) -> Option<Seq<char>> {
    if first_eq(s) == s.len() {
        Option::None
    } else {
        let rest = s.skip(first_eq(s) + 1);
        Option::Some(rest.take(first_eq(rest)))
    }
}

fn find_eq(tok: &str, from: usize) -> (r: usize)
    requires
        from <= tok@.len(),
    ensures
        from <= r <= tok@.len(),
        r - from == first_eq(tok@.skip(from as int)),
{
    let n = tok.unicode_len();
    let mut i: usize = from;
    while i < n
        invariant
            from <= i <= n,
            n == tok@.len(),
            forall|j: int| from <= j < i ==> tok@[j] != '=',
        decreases n - i,
    {
        let c = tok.get_char(i);
        if c == '=' {
            proof {
                lemma_first_eq_bounds(tok@.skip(from as int));
                let fe = first_eq(tok@.skip(from as int));
                if fe < i - from {
                    assert(tok@[from + fe] == '=');
                } else if fe > i - from {
                    assert(tok@.skip(from as int)[i - from] == '=');
                    assert(tok@.skip(from as int)[fe] == '=');
                }
            }
            return i;
        }
        i = i + 1;
    }
    proof {
        lemma_first_eq_bounds(tok@.skip(from as int));
        let fe = first_eq(tok@.skip(from as int));
        if fe < n - from {
            assert(tok@[from + fe] == '=');
        }
    }
    n
}

/// Splits one breakout token into its dimension name and optional value:
/// the texts before the first `=` and between the first and second `=`.
pub fn split_breakout_token(tok: &str) -> (r: (String, Option<String>))
    ensures
        r.0@ == token_name(tok@),
        (r.1 is None) == (token_value(tok@) is None),
        r.1 matches Option::Some(v) ==> token_value(tok@) matches Option::Some(tv) && v@ == tv,
{
    let n = tok.unicode_len();
    let i = find_eq(tok, 0);
    proof {
        assert(tok@.skip(0) =~= tok@);
        assert(tok@.take(i as int) =~= token_name(tok@));
    }
    let name = String::from_str(tok.substring_char(0, i));
    if i == n {
        (name, Option::None)
    } else {
        let k = find_eq(tok, i + 1);
        proof {
            let rest = tok@.skip(i + 1);
            assert(tok@.subrange(i + 1, k as int) =~= rest.take(first_eq(rest)));
        }
        let v = String::from_str(tok.substring_char(i + 1, k));
        (name, Option::Some(v))
    }
}

/// The parsed breakout of one token.
pub open spec fn breakout_of(tok: Seq<char>) -> (Seq<char>, Option<Seq<char>>) {
    (token_name(tok), token_value(tok))
}

/// The parsed breakouts of a token list.
pub open spec fn breakouts_of(toks: Seq<Seq<char>>) -> Seq<(Seq<char>, Option<Seq<char>>)> {
    toks.map_values(|t: Seq<char>| breakout_of(t))
}

/// Parses the comma-delimited breakout tokens handed by the query surface.
pub fn parse_breakouts(name: &Option<Vec<String>>) -> (r: Vec<(String, Option<String>)>)
    ensures
        r@.len() == (match name {
            Option::Some(v) => v@.len(),
            Option::None => 0,
        }),
        forall|i: int|
            0 <= i < r@.len() ==> {
                let tok = name->Some_0@[i]@;
                &&& (#[trigger] r@[i]).0@ == token_name(tok)
                &&& ((r@[i].1 is None) == (token_value(tok) is None))
                &&& (r@[i].1 matches Option::Some(v) ==> token_value(tok) matches Option::Some(tv)
                    && v@ == tv)
            },
{
    let mut r: Vec<(String, Option<String>)> = Vec::new();
    match name {
        Option::None => r,
        Option::Some(toks) => {
            let mut i: usize = 0;
            while i < toks.len()
                invariant
                    0 <= i <= toks@.len(),
                    r@.len() == i,
                    forall|k: int|
                        0 <= k < i ==> {
                            let tok = toks@[k]@;
                            &&& (#[trigger] r@[k]).0@ == token_name(tok)
                            &&& ((r@[k].1 is None) == (token_value(tok) is None))
                            &&& (r@[k].1 matches Option::Some(v) ==> token_value(tok) matches
                                Option::Some(tv) && v@ == tv)
                        },
                decreases toks@.len() - i,
            {
                let b = split_breakout_token(toks[i].as_str());
                r.push(b);
                i = i + 1;
            }
            r
        },
    }
}


/// A breakout dimension: name and optional fixed value.
pub open spec fn bs_of(args: MetricArgs) -> Seq<(Seq<char>, Option<Seq<char>>)> {
    match args.name {
        Option::Some(v) => breakouts_of(v@.map_values(|s: String| s@)),
        Option::None => Seq::empty(),
    }
}

/// The subqueries actually joined: the parsed breakouts, or the lone
/// anchor dimension `base` when none were given.
pub open spec fn ebs_of(args: MetricArgs) -> Seq<(Seq<char>, Option<Seq<char>>)> {
    if bs_of(args).len() == 0 {
        seq![("base"@, Option::None)]
    } else {
        bs_of(args)
    }
}

/// How many parameters one breakout subquery binds.
pub open spec fn breakout_bind_n(b: (Seq<char>, Option<Seq<char>>)) -> int {
    1 + (if b.1 is Some {
        1int
    } else {
        0int
    })
}

/// How many parameters the first `i` breakout subqueries bind.
pub open spec fn binds_before(ebs: Seq<(Seq<char>, Option<Seq<char>>)>, i: int) -> int
    decreases i,
{
    if i <= 0 {
        0
    } else {
        binds_before(ebs, i - 1) + breakout_bind_n(ebs[i - 1])
    }
}

/// The bind parameters of one breakout subquery: its name, then its value
/// if fixed.
pub open spec fn subquery_binds(b: (Seq<char>, Option<Seq<char>>)) -> Seq<SqlParamView> {
    seq![SqlParamView::Str(b.0)] + (match b.1 {
        Option::Some(v) => seq![SqlParamView::Str(v)],
        Option::None => Seq::empty(),
    })
}

/// The bind parameters of the first `i` breakout subqueries.
pub open spec fn breakout_binds(ebs: Seq<(Seq<char>, Option<Seq<char>>)>, i: int) -> Seq<
    SqlParamView,
>
    decreases i,
{
    if i <= 0 {
        Seq::empty()
    } else {
        breakout_binds(ebs, i - 1) + subquery_binds(ebs[i - 1])
    }
}

/// `name` wrapped in double quotes.
pub open spec fn quoted(n: Seq<char>) -> Seq<char> {
    "\""@ + n + "\""@
}

/// One pivoted output column of the select list.
pub open spec fn select_col_text(n: Seq<char>) -> Seq<char> {
    quoted(n) + ".name_value as "@ + quoted(n + "_v"@) + ", "@
}

/// The pivoted output columns of the first `i` breakouts.
pub open spec fn select_cols_text(bs: Seq<(Seq<char>, Option<Seq<char>>)>, i: int) -> Seq<char>
    decreases i,
{
    if i <= 0 {
        Seq::empty()
    } else {
        select_cols_text(bs, i - 1) + select_col_text(bs[i - 1].0)
    }
}

/// The duration of a data point adjusted to the window of interest: only
/// the time inside the window contributes.
pub open spec fn adjusted_sql_text() -> Seq<char> {
    "(metric_data.duration - GREATEST(0, EXTRACT(EPOCH FROM (woi.window_begin))::bigint * 1000 - EXTRACT(EPOCH FROM (metric_data.begin))::bigint * 1000) - GREATEST(0, EXTRACT(EPOCH FROM (metric_data.finish))::bigint * 1000 - EXTRACT(EPOCH FROM (woi.window_finish))::bigint * 1000))"@
}

/// The aggregation clause.
pub open spec fn agg_text(a: Aggregator) -> Seq<char> {
    match a {
        Aggregator::Passthrough => "metric_data.value as value"@,
        Aggregator::Avg => "AVG(metric_data.value) as avg"@,
        Aggregator::WeightedAvg => "SUM(metric_data.value * "@ + adjusted_sql_text() + ") / SUM("@
            + adjusted_sql_text() + ") as weighted_avg"@,
        Aggregator::Stddev => "STDDEV(metric_data.value) as stddev"@,
        Aggregator::Min => "MIN(metric_data.value) as min"@,
        Aggregator::Max => "MAX(metric_data.value) as max"@,
    }
}

/// One breakout subquery, its parameters numbered from `start`.
pub open spec fn subquery_text(b: (Seq<char>, Option<Seq<char>>), start: nat) -> Seq<char> {
    "(SELECT name.metric_desc_uuid as metric_desc_uuid, metric_desc.metric_type as metric_type, name.val as name_value, metric_data.value as metric_value FROM metric_desc, name, metric_data WHERE metric_desc.metric_desc_uuid = name.metric_desc_uuid AND name.metric_desc_uuid = metric_data.metric_desc_uuid AND name.name = "@
        + placeholder(start) + (match b.1 {
        Option::Some(_) => " AND name.val = "@ + placeholder((start + 1) as nat),
        Option::None => Seq::empty(),
    }) + ") as "@ + quoted(b.0)
}

/// The chained breakout joins from subquery `i` on: each one joins on the
/// previous subquery's descriptor.
pub open spec fn chain_text(ebs: Seq<(Seq<char>, Option<Seq<char>>)>, i: int) -> Seq<char>
    decreases ebs.len() - i,
{
    if i < 1 || i >= ebs.len() {
        Seq::empty()
    } else {
        " LEFT JOIN "@ + subquery_text(ebs[i], (1 + binds_before(ebs, i)) as nat) + " ON "@
            + quoted(ebs[i - 1].0) + ".metric_desc_uuid = "@ + quoted(ebs[i].0)
            + ".metric_desc_uuid"@ + chain_text(ebs, i + 1)
    }
}

/// How many parameters the time selector binds.
pub open spec fn window_bind_n(args: MetricArgs) -> int {
    if args.ref_period is Some {
        1
    } else {
        6
    }
}

/// The bind parameters of the time selector.
pub open spec fn window_binds(args: MetricArgs) -> Seq<SqlParamView> {
    match args.ref_period {
        Option::Some(p) => seq![SqlParamView::Uuid(p)],
        Option::None => {
            let b = args.begin->Some_0;
            let f = args.finish->Some_0;
            seq![
                SqlParamView::Ts(f),
                SqlParamView::Ts(b),
                SqlParamView::Ts(b),
                SqlParamView::Ts(f),
                SqlParamView::Ts(f),
                SqlParamView::Ts(b),
            ]
        },
    }
}

/// The windows-of-interest join: `resolution` equal-width windows generated
/// over the reference period or the explicit range.
pub open spec fn window_text(args: MetricArgs, start: nat) -> Seq<char> {
    let res = dec_digits(args.resolution as nat);
    match args.ref_period {
        Option::Some(_) => " CROSS JOIN (SELECT window_begin, window_begin + window_duration as window_finish FROM (SELECT (period.finish - period.begin)/"@
            + res
            + " as window_duration, generate_series(period.begin, period.finish, (period.finish - period.begin)/"@
            + res + ") as window_begin FROM period WHERE period_uuid = "@ + placeholder(start)
            + ") as windows ORDER BY window_begin, window_finish LIMIT "@ + res + ") woi"@,
        Option::None => " CROSS JOIN (SELECT window_begin, window_begin + window_duration as window_finish FROM (SELECT ("@
            + placeholder(start) + " - "@ + placeholder((start + 1) as nat) + ")/"@ + res
            + " as window_duration, generate_series("@ + placeholder((start + 2) as nat) + ", "@
            + placeholder((start + 3) as nat) + ", ("@ + placeholder((start + 4) as nat) + " - "@
            + placeholder((start + 5) as nat) + ")/"@ + res
            + ") as window_begin) windows ORDER BY window_begin, window_finish LIMIT "@ + res
            + ") woi"@,
    }
}

/// The first half of the scalar filters: the UUID restrictions.
pub open spec fn filter_items_a(args: MetricArgs) -> Seq<(Seq<char>, SqlParamView)> {
    (match args.run_uuid {
        Option::Some(u) => seq![(" AND run.run_uuid = "@, SqlParamView::Uuid(u))],
        Option::None => Seq::empty(),
    }) + (match args.iteration_uuid {
        Option::Some(u) => seq![(" AND iteration.iteration_uuid = "@, SqlParamView::Uuid(u))],
        Option::None => Seq::empty(),
    }) + (match args.metric_desc_uuid {
        Option::Some(u) => seq![(" AND metric_data.metric_desc_uuid = "@, SqlParamView::Uuid(u))],
        Option::None => Seq::empty(),
    }) + (match args.period_uuid {
        Option::Some(u) => seq![(" AND metric_desc.period_uuid = "@, SqlParamView::Uuid(u))],
        Option::None => Seq::empty(),
    })
}

/// The second half of the scalar filters: type and value restrictions.
pub open spec fn filter_items_b(args: MetricArgs) -> Seq<(Seq<char>, SqlParamView)> {
    (match args.metric_type {
        Option::Some(t) => seq![(" AND metric_desc.metric_type = "@, SqlParamView::Str(t@))],
        Option::None => Seq::empty(),
    }) + (match args.value_eq {
        Option::Some(v) => seq![(" AND metric_data.value = "@, SqlParamView::F64Bits(v))],
        Option::None => Seq::empty(),
    }) + (match args.value_lt {
        Option::Some(v) => seq![(" AND metric_data.value < "@, SqlParamView::F64Bits(v))],
        Option::None => Seq::empty(),
    }) + (match args.value_gt {
        Option::Some(v) => seq![(" AND metric_data.value > "@, SqlParamView::F64Bits(v))],
        Option::None => Seq::empty(),
    })
}

/// The conditionally inert scalar filters, in their fixed order: each
/// present filter contributes its predicate text and one bind parameter.
pub open spec fn filter_items(args: MetricArgs) -> Seq<(Seq<char>, SqlParamView)> {
    filter_items_a(args) + filter_items_b(args)
}

/// The filter predicates, parameters numbered from `start`.
pub open spec fn filters_text(items: Seq<(Seq<char>, SqlParamView)>, start: nat) -> Seq<char>
    decreases items.len(),
{
    if items.len() == 0 {
        Seq::empty()
    } else {
        filters_text(items.drop_last(), start) + items.last().0 + placeholder(
            (start + items.len() - 1) as nat,
        )
    }
}

/// The bind parameters of the filters.
pub open spec fn filter_binds(items: Seq<(Seq<char>, SqlParamView)>) -> Seq<SqlParamView> {
    items.map_values(|it: (Seq<char>, SqlParamView)| it.1)
}

/// How many parameters the overlap restriction binds.
pub open spec fn overlap_bind_n(args: MetricArgs) -> int {
    if args.ref_period is Some {
        0
    } else {
        6
    }
}

/// The bind parameters of the overlap restriction.
pub open spec fn overlap_binds(args: MetricArgs) -> Seq<SqlParamView> {
    match args.ref_period {
        Option::Some(_) => Seq::empty(),
        Option::None => {
            let b = args.begin->Some_0;
            let f = args.finish->Some_0;
            seq![
                SqlParamView::Ts(b),
                SqlParamView::Ts(f),
                SqlParamView::Ts(b),
                SqlParamView::Ts(f),
                SqlParamView::Ts(b),
                SqlParamView::Ts(f),
            ]
        },
    }
}

/// The restriction of data points to those overlapping the window of
/// interest (with a reference period) or the explicit range: the point
/// begins strictly inside, ends strictly inside, or strictly spans it.
pub open spec fn overlap_text(args: MetricArgs, start: nat) -> Seq<char> {
    match args.ref_period {
        Option::Some(_) => " AND ((metric_data.begin > woi.window_begin AND metric_data.begin < woi.window_finish) OR (metric_data.finish > woi.window_begin AND metric_data.finish < woi.window_finish) OR (metric_data.begin < woi.window_begin AND metric_data.finish > woi.window_finish))"@,
        Option::None => " AND ((metric_data.begin > "@ + placeholder(start)
            + " AND metric_data.begin < "@ + placeholder((start + 1) as nat)
            + ") OR (metric_data.finish > "@ + placeholder((start + 2) as nat)
            + " AND metric_data.finish < "@ + placeholder((start + 3) as nat)
            + ") OR (metric_data.begin < "@ + placeholder((start + 4) as nat)
            + " AND metric_data.finish > "@ + placeholder((start + 5) as nat) + "))"@,
    }
}

/// The grouping columns contributed by the first `i` breakouts.
pub open spec fn group_cols_text(bs: Seq<(Seq<char>, Option<Seq<char>>)>, i: int) -> Seq<char>
    decreases i,
{
    if i <= 0 {
        Seq::empty()
    } else {
        group_cols_text(bs, i - 1) + ", "@ + quoted(bs[i - 1].0) + ".name_value"@
    }
}

/// The ordering columns contributed by the first `i` breakouts.
pub open spec fn order_cols_text(bs: Seq<(Seq<char>, Option<Seq<char>>)>, i: int) -> Seq<char>
    decreases i,
{
    if i <= 0 {
        Seq::empty()
    } else {
        order_cols_text(bs, i - 1) + quoted(bs[i - 1].0) + ".name_value, "@
    }
}

/// Whether grouping and ordering are emitted: a breakout list was given and
/// the aggregator is not the passthrough.
pub open spec fn grouped(args: MetricArgs) -> bool {
    args.name is Some && args.aggregator != Aggregator::Passthrough
}

/// The GROUP BY and ORDER BY tail.
pub open spec fn group_order_text(args: MetricArgs) -> Seq<char> {
    if grouped(args) {
        let bs = bs_of(args);
        " GROUP BY run.run_uuid, iteration.iteration_uuid, metric_desc.metric_type, woi.window_begin, woi.window_finish"@
            + group_cols_text(bs, bs.len() as int) + " ORDER BY "@ + order_cols_text(
            bs,
            bs.len() as int,
        ) + "woi.window_begin, woi.window_finish"@
    } else {
        Seq::empty()
    }
}

/// Whether the time selector is unusable: both or neither of the reference
/// period and the explicit range given, or a half-open range.
pub open spec fn time_selector_invalid(args: MetricArgs) -> bool {
    ||| (args.ref_period is Some && (args.begin is Some || args.finish is Some))
    ||| ((args.begin is Some) != (args.finish is Some))
    ||| (args.ref_period is None && args.begin is None)
}

/// The complete statement text of one metric query.
pub open spec fn metric_sql(args: MetricArgs) -> Seq<char> {
    let bs = bs_of(args);
    let ebs = ebs_of(args);
    let wstart = (1 + binds_before(ebs, ebs.len() as int)) as nat;
    let items = filter_items(args);
    let fstart = (wstart + window_bind_n(args)) as nat;
    let ostart = (fstart + items.len()) as nat;
    "SELECT run.run_uuid as run_uuid, iteration.iteration_uuid as iteration_uuid, metric_desc.metric_type as metric_type, "@
        + select_cols_text(bs, bs.len() as int) + "woi.window_begin, woi.window_finish, "@
        + agg_text(args.aggregator)
        + " FROM metric_data LEFT JOIN metric_desc ON metric_desc.metric_desc_uuid = metric_data.metric_desc_uuid LEFT JOIN period ON period.period_uuid = metric_desc.period_uuid LEFT JOIN sample ON sample.sample_uuid = period.sample_uuid LEFT JOIN iteration ON iteration.iteration_uuid = sample.iteration_uuid LEFT JOIN run ON run.run_uuid = iteration.run_uuid LEFT JOIN "@
        + subquery_text(ebs[0], 1) + " ON metric_desc.metric_desc_uuid = "@ + quoted(ebs[0].0)
        + ".metric_desc_uuid"@ + chain_text(ebs, 1) + window_text(args, wstart) + " WHERE TRUE"@
        + filters_text(items, fstart) + overlap_text(args, ostart) + group_order_text(args)
}

/// The ordered bind parameters of one metric query.
pub open spec fn metric_params(args: MetricArgs) -> Seq<SqlParamView> {
    let ebs = ebs_of(args);
    breakout_binds(ebs, ebs.len() as int) + window_binds(args) + filter_binds(filter_items(args))
        + overlap_binds(args)
}


proof fn lemma_binds_before_bound(ebs: Seq<(Seq<char>, Option<Seq<char>>)>, i: int)
    requires
        0 <= i <= ebs.len(),
    ensures
        0 <= binds_before(ebs, i) <= 2 * i,
    decreases i,
{
    if i > 0 {
        lemma_binds_before_bound(ebs, i - 1);
    }
}

/// The mathematical values of a parameter list.
pub open spec fn params_view(ps: Seq<SqlParam>) -> Seq<SqlParamView> {
    ps.map_values(|p: SqlParam| param_view(p))
}

proof fn lemma_params_view_push(ps: Seq<SqlParam>, p: SqlParam)
    ensures
        params_view(ps.push(p)) == params_view(ps) + seq![param_view(p)],
{
    assert(params_view(ps.push(p)) =~= params_view(ps) + seq![param_view(p)]);
}

/// Whether the parsed breakout list agrees with its mathematical value.
pub open spec fn breakouts_match(
    ebs: Seq<(String, Option<String>)>,
    gebs: Seq<(Seq<char>, Option<Seq<char>>)>,
) -> bool {
    &&& ebs.len() == gebs.len()
    &&& forall|k: int|
        0 <= k < gebs.len() ==> (#[trigger] gebs[k]) == ((
            ebs[k].0@,
            match ebs[k].1 {
                Option::Some(v) => Option::Some(v@),
                Option::None => Option::<Seq<char>>::None,
            },
        ))
}

fn push_subquery(
    sql: &mut String,
    params: &mut Vec<SqlParam>,
    name: &String,
    value: &Option<String>,
    c: u64,
    Ghost(b): Ghost<(Seq<char>, Option<Seq<char>>)>,
) -> (r: u64)
    requires
        c + 2 <= u64::MAX,
        b.0 == name@,
        (b.1 is None) == (value is None),
        value matches Option::Some(v) ==> b.1 matches Option::Some(gv) && gv == v@,
    ensures
        final(sql)@ == old(sql)@ + subquery_text(b, c as nat),
        params_view(final(params)@) == params_view(old(params)@) + subquery_binds(b),
        r == c + breakout_bind_n(b),
{
    sql.append(
        "(SELECT name.metric_desc_uuid as metric_desc_uuid, metric_desc.metric_type as metric_type, name.val as name_value, metric_data.value as metric_value FROM metric_desc, name, metric_data WHERE metric_desc.metric_desc_uuid = name.metric_desc_uuid AND name.metric_desc_uuid = metric_data.metric_desc_uuid AND name.name = ",
    );
    push_placeholder(sql, c);
    let ghost ps0 = params@;
    params.push(SqlParam::Str(name.clone()));
    proof {
        lemma_params_view_push(ps0, SqlParam::Str(*name));
        assert(params_view(params@) =~= params_view(old(params)@) + seq![SqlParamView::Str(b.0)]);
    }
    let next: u64;
    match value {
        Option::Some(v) => {
            sql.append(" AND name.val = ");
            push_placeholder(sql, c + 1);
            let ghost ps1 = params@;
            params.push(SqlParam::Str(v.clone()));
            proof {
                lemma_params_view_push(ps1, SqlParam::Str(*v));
                assert(params_view(params@) =~= params_view(old(params)@) + subquery_binds(b));
            }
            next = c + 2;
        },
        Option::None => {
            proof {
                assert(params_view(params@) =~= params_view(old(params)@) + subquery_binds(b));
            }
            next = c + 1;
        },
    }
    sql.append(") as ");
    sql.append("\"");
    sql.append(name.as_str());
    sql.append("\"");
    proof {
        assert(sql@ =~= old(sql)@ + subquery_text(b, c as nat));
    }
    next
}

fn push_select_cols(sql: &mut String, bs: &Vec<(String, Option<String>)>, Ghost(gbs): Ghost<
    Seq<(Seq<char>, Option<Seq<char>>)>,
>)
    requires
        breakouts_match(bs@, gbs),
    ensures
        final(sql)@ == old(sql)@ + select_cols_text(gbs, gbs.len() as int),
{
    let mut i: usize = 0;
    proof {
        assert(sql@ =~= old(sql)@ + select_cols_text(gbs, 0));
    }
    while i < bs.len()
        invariant
            0 <= i <= bs@.len(),
            breakouts_match(bs@, gbs),
            sql@ == old(sql)@ + select_cols_text(gbs, i as int),
        decreases bs@.len() - i,
    {
        sql.append("\"");
        sql.append(bs[i].0.as_str());
        sql.append("\"");
        sql.append(".name_value as ");
        sql.append("\"");
        sql.append(bs[i].0.as_str());
        sql.append("_v");
        sql.append("\"");
        sql.append(", ");
        i = i + 1;
        proof {
            assert(sql@ =~= old(sql)@ + select_cols_text(gbs, i as int));
        }
    }
}

fn push_agg(sql: &mut String, agg: Aggregator)
    ensures
        final(sql)@ == old(sql)@ + agg_text(agg),
{
    match agg {
        Aggregator::Passthrough => sql.append("metric_data.value as value"),
        Aggregator::Avg => sql.append("AVG(metric_data.value) as avg"),
        Aggregator::WeightedAvg => {
            sql.append("SUM(metric_data.value * ");
            sql.append(
                "(metric_data.duration - GREATEST(0, EXTRACT(EPOCH FROM (woi.window_begin))::bigint * 1000 - EXTRACT(EPOCH FROM (metric_data.begin))::bigint * 1000) - GREATEST(0, EXTRACT(EPOCH FROM (metric_data.finish))::bigint * 1000 - EXTRACT(EPOCH FROM (woi.window_finish))::bigint * 1000))",
            );
            sql.append(") / SUM(");
            sql.append(
                "(metric_data.duration - GREATEST(0, EXTRACT(EPOCH FROM (woi.window_begin))::bigint * 1000 - EXTRACT(EPOCH FROM (metric_data.begin))::bigint * 1000) - GREATEST(0, EXTRACT(EPOCH FROM (metric_data.finish))::bigint * 1000 - EXTRACT(EPOCH FROM (woi.window_finish))::bigint * 1000))",
            );
            sql.append(") as weighted_avg");
            proof {
                assert(sql@ =~= old(sql)@ + agg_text(agg));
            }
        },
        Aggregator::Stddev => sql.append("STDDEV(metric_data.value) as stddev"),
        Aggregator::Min => sql.append("MIN(metric_data.value) as min"),
        Aggregator::Max => sql.append("MAX(metric_data.value) as max"),
    }
}

#[verifier::rlimit(100)]
#[verifier::spinoff_prover]
fn push_breakout_joins(
    sql: &mut String,
    params: &mut Vec<SqlParam>,
    ebs: &Vec<(String, Option<String>)>,
    Ghost(gebs): Ghost<Seq<(Seq<char>, Option<Seq<char>>)>>,
) -> (c: u64)
    requires
        breakouts_match(ebs@, gebs),
        1 <= gebs.len() <= 0x10001,
    ensures
        final(sql)@ == old(sql)@ + subquery_text(gebs[0], 1) + " ON metric_desc.metric_desc_uuid = "@
            + quoted(gebs[0].0) + ".metric_desc_uuid"@ + chain_text(gebs, 1),
        params_view(final(params)@) == params_view(old(params)@) + breakout_binds(
            gebs,
            gebs.len() as int,
        ),
        c == 1 + binds_before(gebs, gebs.len() as int),
{
    let mut c: u64 = 1;
    c = push_subquery(&mut *sql, &mut *params, &ebs[0].0, &ebs[0].1, c, Ghost(gebs[0]));
    sql.append(" ON metric_desc.metric_desc_uuid = ");
    sql.append("\"");
    sql.append(ebs[0].0.as_str());
    sql.append("\"");
    sql.append(".metric_desc_uuid");
    let ghost base_sql = old(sql)@ + subquery_text(gebs[0], 1)
        + " ON metric_desc.metric_desc_uuid = "@ + quoted(gebs[0].0) + ".metric_desc_uuid"@;
    proof {
        assert(breakout_binds(gebs, 0) == Seq::<SqlParamView>::empty());
        assert(binds_before(gebs, 0) == 0);
        assert(breakout_binds(gebs, 1) =~= subquery_binds(gebs[0]));
        assert(params_view(params@) =~= params_view(old(params)@) + breakout_binds(gebs, 1));
        assert(sql@ =~= base_sql);
        assert(binds_before(gebs, 1) == breakout_bind_n(gebs[0]));
    }
    let mut j: usize = 1;
    while j < ebs.len()
        invariant
            1 <= j <= ebs@.len(),
            breakouts_match(ebs@, gebs),
            gebs.len() <= 0x10001,
            c == 1 + binds_before(gebs, j as int),
            params_view(params@) == params_view(old(params)@) + breakout_binds(gebs, j as int),
            sql@ + chain_text(gebs, j as int) == base_sql + chain_text(gebs, 1),
        decreases ebs@.len() - j,
    {
        proof {
            lemma_binds_before_bound(gebs, j as int);
        }
        let ghost sql_in = sql@;
        sql.append(" LEFT JOIN ");
        let c2 = push_subquery(&mut *sql, &mut *params, &ebs[j].0, &ebs[j].1, c, Ghost(gebs[j as int]));
        sql.append(" ON ");
        sql.append("\"");
        sql.append(ebs[j - 1].0.as_str());
        sql.append("\"");
        sql.append(".metric_desc_uuid = ");
        sql.append("\"");
        sql.append(ebs[j].0.as_str());
        sql.append("\"");
        sql.append(".metric_desc_uuid");
        proof {
            assert(params_view(params@) =~= params_view(old(params)@) + breakout_binds(
                gebs,
                j + 1,
            ));
            assert(chain_text(gebs, j as int) == " LEFT JOIN "@ + subquery_text(
                gebs[j as int],
                (1 + binds_before(gebs, j as int)) as nat,
            ) + " ON "@ + quoted(gebs[j - 1].0) + ".metric_desc_uuid = "@ + quoted(gebs[j as int].0)
                + ".metric_desc_uuid"@ + chain_text(gebs, j + 1));
            assert(sql@ =~= sql_in + " LEFT JOIN "@ + subquery_text(
                gebs[j as int],
                c as nat,
            ) + " ON "@ + quoted(gebs[j - 1].0) + ".metric_desc_uuid = "@ + quoted(gebs[j as int].0)
                + ".metric_desc_uuid"@);
            assert(sql@ + chain_text(gebs, j + 1) =~= base_sql + chain_text(gebs, 1));
        }
        c = c2;
        j = j + 1;
    }
    proof {
        assert(chain_text(gebs, gebs.len() as int) =~= Seq::<char>::empty());
        assert(sql@ =~= sql@ + chain_text(gebs, gebs.len() as int));
        assert(sql@ =~= base_sql + chain_text(gebs, 1));
    }
    c
}

#[verifier::rlimit(100)]
#[verifier::spinoff_prover]
fn push_window(sql: &mut String, params: &mut Vec<SqlParam>, args: &MetricArgs, c: u64) -> (r: u64)
    requires
        c + 6 <= u64::MAX,
        !time_selector_invalid(*args),
    ensures
        final(sql)@ == old(sql)@ + window_text(*args, c as nat),
        params_view(final(params)@) == params_view(old(params)@) + window_binds(*args),
        r == c + window_bind_n(*args),
{
    let res_text = crate::statement::u64_to_dec(args.resolution);
    match &args.ref_period {
        Option::Some(p) => {
            sql.append(
                " CROSS JOIN (SELECT window_begin, window_begin + window_duration as window_finish FROM (SELECT (period.finish - period.begin)/",
            );
            sql.append(res_text.as_str());
            sql.append(
                " as window_duration, generate_series(period.begin, period.finish, (period.finish - period.begin)/",
            );
            sql.append(res_text.as_str());
            sql.append(") as window_begin FROM period WHERE period_uuid = ");
            push_placeholder(&mut *sql, c);
            let ghost ps0 = params@;
            params.push(SqlParam::Uuid(*p));
            sql.append(") as windows ORDER BY window_begin, window_finish LIMIT ");
            sql.append(res_text.as_str());
            sql.append(") woi");
            proof {
                lemma_params_view_push(ps0, SqlParam::Uuid(*p));
                assert(params_view(params@) =~= params_view(old(params)@) + window_binds(*args));
                assert(sql@ =~= old(sql)@ + window_text(*args, c as nat));
            }
            c + 1
        },
        Option::None => {
            let b = match &args.begin {
                Option::Some(b) => *b,
                Option::None => 0,
            };
            let f = match &args.finish {
                Option::Some(f) => *f,
                Option::None => 0,
            };
            sql.append(
                " CROSS JOIN (SELECT window_begin, window_begin + window_duration as window_finish FROM (SELECT (",
            );
            push_placeholder(&mut *sql, c);
            sql.append(" - ");
            push_placeholder(&mut *sql, c + 1);
            sql.append(")/");
            sql.append(res_text.as_str());
            sql.append(" as window_duration, generate_series(");
            push_placeholder(&mut *sql, c + 2);
            sql.append(", ");
            push_placeholder(&mut *sql, c + 3);
            sql.append(", (");
            push_placeholder(&mut *sql, c + 4);
            sql.append(" - ");
            push_placeholder(&mut *sql, c + 5);
            sql.append(")/");
            sql.append(res_text.as_str());
            sql.append(") as window_begin) windows ORDER BY window_begin, window_finish LIMIT ");
            sql.append(res_text.as_str());
            sql.append(") woi");
            let ghost ps0 = params@;
            params.push(SqlParam::Ts(f));
            params.push(SqlParam::Ts(b));
            params.push(SqlParam::Ts(b));
            params.push(SqlParam::Ts(f));
            params.push(SqlParam::Ts(f));
            params.push(SqlParam::Ts(b));
            proof {
                assert(params_view(params@) =~= params_view(old(params)@) + window_binds(*args));
                assert(sql@ =~= old(sql)@ + window_text(*args, c as nat));
            }
            c + 6
        },
    }
}

#[verifier::rlimit(100)]
#[verifier::spinoff_prover]
fn push_filters_a(sql: &mut String, params: &mut Vec<SqlParam>, args: &MetricArgs, c: u64) -> (r: u64)
    requires
        c + 4 <= u64::MAX,
    ensures
        final(sql)@ == old(sql)@ + filters_text(filter_items_a(*args), c as nat),
        params_view(final(params)@) == params_view(old(params)@) + filter_binds(filter_items_a(*args)),
        r == c + filter_items_a(*args).len(),
{
    let ghost fstart = c as nat;
    let ghost mut items: Seq<(Seq<char>, SqlParamView)> = Seq::empty();
    let mut c = c;
    proof {
        assert(sql@ =~= old(sql)@ + filters_text(items, fstart));
        assert(params_view(params@) =~= params_view(old(params)@) + filter_binds(items));
    }
    if let Option::Some(u) = &args.run_uuid {
        let ghost items0 = items;
        sql.append(" AND run.run_uuid = ");
        push_placeholder(&mut *sql, c);
        let ghost ps0 = params@;
        params.push(SqlParam::Uuid(*u));
        proof {
            items = items0 + seq![(" AND run.run_uuid = "@, SqlParamView::Uuid(*u))];
            assert(items.drop_last() =~= items0);
            assert(c as nat == fstart + items0.len());
            lemma_params_view_push(ps0, SqlParam::Uuid(*u));
            assert(sql@ =~= old(sql)@ + filters_text(items, fstart));
            assert(filter_binds(items) =~= filter_binds(items0) + seq![SqlParamView::Uuid(*u)]);
            assert(params_view(params@) =~= params_view(old(params)@) + filter_binds(items));
        }
        c = c + 1;
    }
    if let Option::Some(u) = &args.iteration_uuid {
        let ghost items0 = items;
        sql.append(" AND iteration.iteration_uuid = ");
        push_placeholder(&mut *sql, c);
        let ghost ps0 = params@;
        params.push(SqlParam::Uuid(*u));
        proof {
            items = items0 + seq![(" AND iteration.iteration_uuid = "@, SqlParamView::Uuid(*u))];
            assert(items.drop_last() =~= items0);
            assert(c as nat == fstart + items0.len());
            lemma_params_view_push(ps0, SqlParam::Uuid(*u));
            assert(sql@ =~= old(sql)@ + filters_text(items, fstart));
            assert(filter_binds(items) =~= filter_binds(items0) + seq![SqlParamView::Uuid(*u)]);
            assert(params_view(params@) =~= params_view(old(params)@) + filter_binds(items));
        }
        c = c + 1;
    }
    if let Option::Some(u) = &args.metric_desc_uuid {
        let ghost items0 = items;
        sql.append(" AND metric_data.metric_desc_uuid = ");
        push_placeholder(&mut *sql, c);
        let ghost ps0 = params@;
        params.push(SqlParam::Uuid(*u));
        proof {
            items = items0 + seq![(" AND metric_data.metric_desc_uuid = "@, SqlParamView::Uuid(*u))];
            assert(items.drop_last() =~= items0);
            assert(c as nat == fstart + items0.len());
            lemma_params_view_push(ps0, SqlParam::Uuid(*u));
            assert(sql@ =~= old(sql)@ + filters_text(items, fstart));
            assert(filter_binds(items) =~= filter_binds(items0) + seq![SqlParamView::Uuid(*u)]);
            assert(params_view(params@) =~= params_view(old(params)@) + filter_binds(items));
        }
        c = c + 1;
    }
    if let Option::Some(u) = &args.period_uuid {
        let ghost items0 = items;
        sql.append(" AND metric_desc.period_uuid = ");
        push_placeholder(&mut *sql, c);
        let ghost ps0 = params@;
        params.push(SqlParam::Uuid(*u));
        proof {
            items = items0 + seq![(" AND metric_desc.period_uuid = "@, SqlParamView::Uuid(*u))];
            assert(items.drop_last() =~= items0);
            assert(c as nat == fstart + items0.len());
            lemma_params_view_push(ps0, SqlParam::Uuid(*u));
            assert(sql@ =~= old(sql)@ + filters_text(items, fstart));
            assert(filter_binds(items) =~= filter_binds(items0) + seq![SqlParamView::Uuid(*u)]);
            assert(params_view(params@) =~= params_view(old(params)@) + filter_binds(items));
        }
        c = c + 1;
    }
    proof {
        assert(items =~= filter_items_a(*args));
    }
    c
}

#[verifier::rlimit(100)]
#[verifier::spinoff_prover]
fn push_filters_b(sql: &mut String, params: &mut Vec<SqlParam>, args: &MetricArgs, c: u64) -> (r: u64)
    requires
        c + 4 <= u64::MAX,
    ensures
        final(sql)@ == old(sql)@ + filters_text(filter_items_b(*args), c as nat),
        params_view(final(params)@) == params_view(old(params)@) + filter_binds(filter_items_b(*args)),
        r == c + filter_items_b(*args).len(),
{
    let ghost fstart = c as nat;
    let ghost mut items: Seq<(Seq<char>, SqlParamView)> = Seq::empty();
    let mut c = c;
    proof {
        assert(sql@ =~= old(sql)@ + filters_text(items, fstart));
        assert(params_view(params@) =~= params_view(old(params)@) + filter_binds(items));
    }
    if let Option::Some(t) = &args.metric_type {
        let ghost items0 = items;
        sql.append(" AND metric_desc.metric_type = ");
        push_placeholder(&mut *sql, c);
        let ghost ps0 = params@;
        params.push(SqlParam::Str(t.clone()));
        proof {
            items = items0 + seq![(" AND metric_desc.metric_type = "@, SqlParamView::Str(t@))];
            assert(items.drop_last() =~= items0);
            assert(c as nat == fstart + items0.len());
            lemma_params_view_push(ps0, SqlParam::Str(*t));
            assert(sql@ =~= old(sql)@ + filters_text(items, fstart));
            assert(filter_binds(items) =~= filter_binds(items0) + seq![SqlParamView::Str(t@)]);
            assert(params_view(params@) =~= params_view(old(params)@) + filter_binds(items));
        }
        c = c + 1;
    }
    if let Option::Some(v) = &args.value_eq {
        let ghost items0 = items;
        sql.append(" AND metric_data.value = ");
        push_placeholder(&mut *sql, c);
        let ghost ps0 = params@;
        params.push(SqlParam::F64Bits(*v));
        proof {
            items = items0 + seq![(" AND metric_data.value = "@, SqlParamView::F64Bits(*v))];
            assert(items.drop_last() =~= items0);
            assert(c as nat == fstart + items0.len());
            lemma_params_view_push(ps0, SqlParam::F64Bits(*v));
            assert(sql@ =~= old(sql)@ + filters_text(items, fstart));
            assert(filter_binds(items) =~= filter_binds(items0) + seq![SqlParamView::F64Bits(*v)]);
            assert(params_view(params@) =~= params_view(old(params)@) + filter_binds(items));
        }
        c = c + 1;
    }
    if let Option::Some(v) = &args.value_lt {
        let ghost items0 = items;
        sql.append(" AND metric_data.value < ");
        push_placeholder(&mut *sql, c);
        let ghost ps0 = params@;
        params.push(SqlParam::F64Bits(*v));
        proof {
            items = items0 + seq![(" AND metric_data.value < "@, SqlParamView::F64Bits(*v))];
            assert(items.drop_last() =~= items0);
            assert(c as nat == fstart + items0.len());
            lemma_params_view_push(ps0, SqlParam::F64Bits(*v));
            assert(sql@ =~= old(sql)@ + filters_text(items, fstart));
            assert(filter_binds(items) =~= filter_binds(items0) + seq![SqlParamView::F64Bits(*v)]);
            assert(params_view(params@) =~= params_view(old(params)@) + filter_binds(items));
        }
        c = c + 1;
    }
    if let Option::Some(v) = &args.value_gt {
        let ghost items0 = items;
        sql.append(" AND metric_data.value > ");
        push_placeholder(&mut *sql, c);
        let ghost ps0 = params@;
        params.push(SqlParam::F64Bits(*v));
        proof {
            items = items0 + seq![(" AND metric_data.value > "@, SqlParamView::F64Bits(*v))];
            assert(items.drop_last() =~= items0);
            assert(c as nat == fstart + items0.len());
            lemma_params_view_push(ps0, SqlParam::F64Bits(*v));
            assert(sql@ =~= old(sql)@ + filters_text(items, fstart));
            assert(filter_binds(items) =~= filter_binds(items0) + seq![SqlParamView::F64Bits(*v)]);
            assert(params_view(params@) =~= params_view(old(params)@) + filter_binds(items));
        }
        c = c + 1;
    }
    proof {
        assert(items =~= filter_items_b(*args));
    }
    c
}

proof fn lemma_filters_text_concat(
    a: Seq<(Seq<char>, SqlParamView)>,
    b: Seq<(Seq<char>, SqlParamView)>,
    start: nat,
)
    ensures
        filters_text(a + b, start) == filters_text(a, start) + filters_text(
            b,
            (start + a.len()) as nat,
        ),
    decreases b.len(),
{
    if b.len() == 0 {
        assert(a + b =~= a);
        assert(filters_text(b, (start + a.len()) as nat) == Seq::<char>::empty());
        assert(filters_text(a, start) + Seq::<char>::empty() =~= filters_text(a, start));
    } else {
        lemma_filters_text_concat(a, b.drop_last(), start);
        assert((a + b).drop_last() =~= a + b.drop_last());
        assert((a + b).last() == b.last());
        assert(filters_text(a + b, start) =~= filters_text(a, start) + filters_text(
            b,
            (start + a.len()) as nat,
        ));
    }
}

proof fn lemma_filter_binds_concat(
    a: Seq<(Seq<char>, SqlParamView)>,
    b: Seq<(Seq<char>, SqlParamView)>,
)
    ensures
        filter_binds(a + b) == filter_binds(a) + filter_binds(b),
{
    assert(filter_binds(a + b) =~= filter_binds(a) + filter_binds(b));
}

#[verifier::spinoff_prover]
fn push_filters(sql: &mut String, params: &mut Vec<SqlParam>, args: &MetricArgs, c: u64) -> (r:
    u64)
    requires
        c + 8 <= u64::MAX,
    ensures
        final(sql)@ == old(sql)@ + filters_text(filter_items(*args), c as nat),
        params_view(final(params)@) == params_view(old(params)@) + filter_binds(
            filter_items(*args),
        ),
        r == c + filter_items(*args).len(),
{
    let c1 = push_filters_a(&mut *sql, &mut *params, args, c);
    proof {
        assert(filter_items_a(*args).len() <= 4);
    }
    let c2 = push_filters_b(&mut *sql, &mut *params, args, c1);
    proof {
        assert(filter_items_b(*args).len() <= 4);
    }
    proof {
        lemma_filters_text_concat(filter_items_a(*args), filter_items_b(*args), c as nat);
        lemma_filter_binds_concat(filter_items_a(*args), filter_items_b(*args));
        assert(sql@ =~= old(sql)@ + filters_text(filter_items(*args), c as nat));
        assert(params_view(params@) =~= params_view(old(params)@) + filter_binds(
            filter_items(*args),
        ));
    }
    c2
}

#[verifier::rlimit(100)]
#[verifier::spinoff_prover]
fn push_overlap(sql: &mut String, params: &mut Vec<SqlParam>, args: &MetricArgs, c: u64) -> (r:
    u64)
    requires
        c + 6 <= u64::MAX,
        !time_selector_invalid(*args),
    ensures
        final(sql)@ == old(sql)@ + overlap_text(*args, c as nat),
        params_view(final(params)@) == params_view(old(params)@) + overlap_binds(*args),
        r == c + overlap_bind_n(*args),
{
    match &args.ref_period {
        Option::Some(_) => {
            sql.append(
                " AND ((metric_data.begin > woi.window_begin AND metric_data.begin < woi.window_finish) OR (metric_data.finish > woi.window_begin AND metric_data.finish < woi.window_finish) OR (metric_data.begin < woi.window_begin AND metric_data.finish > woi.window_finish))",
            );
            proof {
                assert(params_view(params@) =~= params_view(old(params)@) + overlap_binds(*args));
            }
            c
        },
        Option::None => {
            let b = match &args.begin {
                Option::Some(b) => *b,
                Option::None => 0,
            };
            let f = match &args.finish {
                Option::Some(f) => *f,
                Option::None => 0,
            };
            sql.append(" AND ((metric_data.begin > ");
            push_placeholder(&mut *sql, c);
            sql.append(" AND metric_data.begin < ");
            push_placeholder(&mut *sql, c + 1);
            sql.append(") OR (metric_data.finish > ");
            push_placeholder(&mut *sql, c + 2);
            sql.append(" AND metric_data.finish < ");
            push_placeholder(&mut *sql, c + 3);
            sql.append(") OR (metric_data.begin < ");
            push_placeholder(&mut *sql, c + 4);
            sql.append(" AND metric_data.finish > ");
            push_placeholder(&mut *sql, c + 5);
            sql.append("))");
            params.push(SqlParam::Ts(b));
            params.push(SqlParam::Ts(f));
            params.push(SqlParam::Ts(b));
            params.push(SqlParam::Ts(f));
            params.push(SqlParam::Ts(b));
            params.push(SqlParam::Ts(f));
            proof {
                assert(params_view(params@) =~= params_view(old(params)@) + overlap_binds(*args));
                assert(sql@ =~= old(sql)@ + overlap_text(*args, c as nat));
            }
            c + 6
        },
    }
}

fn push_group_order(
    sql: &mut String,
    ebs: &Vec<(String, Option<String>)>,
    had_breakouts: bool,
    args: &MetricArgs,
    Ghost(gebs): Ghost<Seq<(Seq<char>, Option<Seq<char>>)>>,
)
    requires
        breakouts_match(ebs@, gebs),
        had_breakouts ==> gebs == bs_of(*args),
        !had_breakouts ==> bs_of(*args).len() == 0,
    ensures
        final(sql)@ == old(sql)@ + group_order_text(*args),
{
    let grouped_now = args.name.is_some() && !matches!(args.aggregator, Aggregator::Passthrough);
    let ghost gbs = bs_of(*args);
    if grouped_now {
        sql.append(
            " GROUP BY run.run_uuid, iteration.iteration_uuid, metric_desc.metric_type, woi.window_begin, woi.window_finish",
        );
        let ghost gb_head = sql@;
        if had_breakouts {
            let mut g: usize = 0;
            while g < ebs.len()
                invariant
                    0 <= g <= ebs@.len(),
                    breakouts_match(ebs@, gebs),
                    gebs == gbs,
                    sql@ == gb_head + group_cols_text(gbs, g as int),
                decreases ebs@.len() - g,
            {
                sql.append(", ");
                sql.append("\"");
                sql.append(ebs[g].0.as_str());
                sql.append("\"");
                sql.append(".name_value");
                g = g + 1;
                proof {
                    assert(sql@ =~= gb_head + group_cols_text(gbs, g as int));
                }
            }
        }
        proof {
            if !had_breakouts {
                assert(group_cols_text(gbs, gbs.len() as int) =~= Seq::<char>::empty());
            }
            assert(sql@ =~= gb_head + group_cols_text(gbs, gbs.len() as int));
        }
        sql.append(" ORDER BY ");
        let ghost ob_head = sql@;
        if had_breakouts {
            let mut g: usize = 0;
            while g < ebs.len()
                invariant
                    0 <= g <= ebs@.len(),
                    breakouts_match(ebs@, gebs),
                    gebs == gbs,
                    sql@ == ob_head + order_cols_text(gbs, g as int),
                decreases ebs@.len() - g,
            {
                sql.append("\"");
                sql.append(ebs[g].0.as_str());
                sql.append("\"");
                sql.append(".name_value, ");
                g = g + 1;
                proof {
                    assert(sql@ =~= ob_head + order_cols_text(gbs, g as int));
                }
            }
        }
        sql.append("woi.window_begin, woi.window_finish");
        proof {
            if !had_breakouts {
                assert(order_cols_text(gbs, gbs.len() as int) =~= Seq::<char>::empty());
            }
            assert(sql@ =~= old(sql)@ + group_order_text(*args));
        }
    } else {
        proof {
            assert(sql@ =~= old(sql)@ + group_order_text(*args));
        }
    }
}

/// Builds the metric query statement: the exact statement text and ordered
/// bind parameters for the given filters, breakouts, time selector and
/// aggregator; an error when the time selector is unusable.
#[verifier::rlimit(100)]
#[verifier::spinoff_prover]
pub fn query_metric_statement(args: &MetricArgs) -> (r: Result<Statement, QueryError>)
    requires
        args.resolution >= 1,
        match args.name {
            Option::Some(v) => v@.len() <= 0x10000,
            Option::None => true,
        },
    ensures
        (r is Err) == time_selector_invalid(*args),
        r matches Result::Ok(st) ==> ({
            &&& st.sql@ == metric_sql(*args)
            &&& params_view(st.params@) == metric_params(*args)
            &&& st.rows == 0
        }),
{
    let has_ref = args.ref_period.is_some();
    let has_begin = args.begin.is_some();
    let has_finish = args.finish.is_some();
    if has_ref && (has_begin || has_finish) {
        return Result::Err(
            QueryError::MetricError(
                String::from_str("a reference period excludes an explicit begin/finish range"),
            ),
        );
    }
    if has_begin != has_finish {
        return Result::Err(
            QueryError::MetricError(String::from_str("begin and finish must be given together")),
        );
    }
    if !has_ref && !has_begin {
        return Result::Err(
            QueryError::MetricError(
                String::from_str("a reference period or a begin/finish range is required"),
            ),
        );
    }
    let ghost gbs = bs_of(*args);
    let ghost gebs = ebs_of(*args);
    let bs = parse_breakouts(&args.name);
    proof {
        assert forall|k: int| 0 <= k < gbs.len() implies (#[trigger] gbs[k]) == ((
            bs@[k].0@,
            match bs@[k].1 {
                Option::Some(v) => Option::Some(v@),
                Option::None => Option::<Seq<char>>::None,
            },
        )) by {
            assert(gbs[k] == breakouts_of(args.name->Some_0@.map_values(|s: String| s@))[k]);
            assert(gbs[k] == breakout_of(args.name->Some_0@[k]@));
        }
        assert(breakouts_match(bs@, gbs));
    }
    let mut sql = String::from_str(
        "SELECT run.run_uuid as run_uuid, iteration.iteration_uuid as iteration_uuid, metric_desc.metric_type as metric_type, ",
    );
    let mut params: Vec<SqlParam> = Vec::new();
    push_select_cols(&mut sql, &bs, Ghost(gbs));
    sql.append("woi.window_begin, woi.window_finish, ");
    push_agg(&mut sql, args.aggregator);
    sql.append(
        " FROM metric_data LEFT JOIN metric_desc ON metric_desc.metric_desc_uuid = metric_data.metric_desc_uuid LEFT JOIN period ON period.period_uuid = metric_desc.period_uuid LEFT JOIN sample ON sample.sample_uuid = period.sample_uuid LEFT JOIN iteration ON iteration.iteration_uuid = sample.iteration_uuid LEFT JOIN run ON run.run_uuid = iteration.run_uuid LEFT JOIN ",
    );
    let had_breakouts = bs.len() > 0;
    let mut ebs = bs;
    if !had_breakouts {
        ebs.push((String::from_str("base"), Option::None));
    }
    proof {
        if !had_breakouts {
            assert(gebs =~= seq![("base"@, Option::<Seq<char>>::None)]);
            assert(breakouts_match(ebs@, gebs));
        } else {
            assert(gebs == gbs);
            assert(breakouts_match(ebs@, gebs));
        }
        assert(params_view(params@) =~= Seq::<SqlParamView>::empty());
    }
    let mut c: u64 = push_breakout_joins(&mut sql, &mut params, &ebs, Ghost(gebs));
    proof {
        lemma_binds_before_bound(gebs, gebs.len() as int);
        assert(params_view(params@) =~= breakout_binds(gebs, gebs.len() as int));
    }
    c = push_window(&mut sql, &mut params, args, c);
    sql.append(" WHERE TRUE");
    c = push_filters(&mut sql, &mut params, args, c);
    c = push_overlap(&mut sql, &mut params, args, c);
    push_group_order(&mut sql, &ebs, had_breakouts, args, Ghost(gebs));
    proof {
        assert(params_view(params@) =~= metric_params(*args));
        assert(sql@ =~= metric_sql(*args));
    }
    Result::Ok(Statement { sql, params, rows: 0 })
}


/// Whether `needle` occurs in `hay`.
pub open spec fn text_contains(hay: Seq<char>, needle: Seq<char>) -> bool {
    exists|i: int|
        0 <= i && i + needle.len() <= hay.len() && #[trigger] hay.subrange(i, i + needle.len())
            == needle
}

/// The breakout chaining law: for a query with one value-free breakout
/// `n1` and one fixed breakout `n2=v2`, the built statement binds `n1`,
/// `n2` and `v2` as its first three parameters, and its text joins the
/// subquery that restricts `name.name` to `n1` (any value) with the
/// subquery that restricts `name.name` to `n2` and `name.val` to `v2`, on
/// the same `metric_desc_uuid`.
#[verifier::rlimit(100)]
#[verifier::spinoff_prover]
pub proof fn lemma_breakout_chaining(args: MetricArgs, n1: Seq<char>, n2: Seq<char>, v2: Seq<char>)
    requires
        bs_of(args) == seq![
            (n1, Option::<Seq<char>>::None),
            (n2, Option::<Seq<char>>::Some(v2)),
        ],
    ensures
        metric_params(args).take(3) == seq![
            SqlParamView::Str(n1),
            SqlParamView::Str(n2),
            SqlParamView::Str(v2),
        ],
        text_contains(
            metric_sql(args),
            subquery_text((n1, Option::None), 1) + " ON metric_desc.metric_desc_uuid = "@
                + quoted(n1) + ".metric_desc_uuid"@ + " LEFT JOIN "@ + subquery_text(
                (n2, Option::Some(v2)),
                2,
            ) + " ON "@ + quoted(n1) + ".metric_desc_uuid = "@ + quoted(n2)
                + ".metric_desc_uuid"@,
        ),
{
    let bs = bs_of(args);
    let ebs = ebs_of(args);
    assert(ebs == bs);
    assert(ebs[0] == (n1, Option::<Seq<char>>::None));
    assert(ebs[1] == (n2, Option::<Seq<char>>::Some(v2)));
    assert(binds_before(ebs, 0) == 0);
    assert(binds_before(ebs, 1) == 1);
    assert(binds_before(ebs, 2) == 3);
    assert(breakout_binds(ebs, 0) == Seq::<SqlParamView>::empty());
    assert(breakout_binds(ebs, 1) =~= seq![SqlParamView::Str(n1)]);
    assert(breakout_binds(ebs, 2) =~= seq![
        SqlParamView::Str(n1),
        SqlParamView::Str(n2),
        SqlParamView::Str(v2),
    ]);
    assert(metric_params(args).take(3) =~= seq![
        SqlParamView::Str(n1),
        SqlParamView::Str(n2),
        SqlParamView::Str(v2),
    ]);
    let frag = subquery_text((n1, Option::None), 1) + " ON metric_desc.metric_desc_uuid = "@
        + quoted(n1) + ".metric_desc_uuid"@ + " LEFT JOIN "@ + subquery_text(
        (n2, Option::Some(v2)),
        2,
    ) + " ON "@ + quoted(n1) + ".metric_desc_uuid = "@ + quoted(n2) + ".metric_desc_uuid"@;
    let a =
        "SELECT run.run_uuid as run_uuid, iteration.iteration_uuid as iteration_uuid, metric_desc.metric_type as metric_type, "@
        + select_cols_text(bs, bs.len() as int) + "woi.window_begin, woi.window_finish, "@
        + agg_text(args.aggregator)
        + " FROM metric_data LEFT JOIN metric_desc ON metric_desc.metric_desc_uuid = metric_data.metric_desc_uuid LEFT JOIN period ON period.period_uuid = metric_desc.period_uuid LEFT JOIN sample ON sample.sample_uuid = period.sample_uuid LEFT JOIN iteration ON iteration.iteration_uuid = sample.iteration_uuid LEFT JOIN run ON run.run_uuid = iteration.run_uuid LEFT JOIN "@;
    let wstart = (1 + binds_before(ebs, ebs.len() as int)) as nat;
    let items = filter_items(args);
    let fstart = (wstart + window_bind_n(args)) as nat;
    let ostart = (fstart + items.len()) as nat;
    let tail = window_text(args, wstart) + " WHERE TRUE"@ + filters_text(items, fstart)
        + overlap_text(args, ostart) + group_order_text(args);
    assert(chain_text(ebs, 2) == Seq::<char>::empty());
    assert(chain_text(ebs, 1) =~= " LEFT JOIN "@ + subquery_text((n2, Option::Some(v2)), 2)
        + " ON "@ + quoted(n1) + ".metric_desc_uuid = "@ + quoted(n2) + ".metric_desc_uuid"@);
    assert(metric_sql(args) =~= a + frag + tail);
    assert(metric_sql(args).subrange(a.len() as int, (a.len() + frag.len()) as int) =~= frag);
    assert(text_contains(metric_sql(args), frag));
}

} // verus!
