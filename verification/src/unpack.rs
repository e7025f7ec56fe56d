//! The result unpacker: maps the heterogeneous rows a metric query returns
//! (their width depends on the number of breakout dimensions) into a stable
//! tabular shape of uniform text cells, defaulting absent identifiers and
//! numeric or time columns.

use vstd::prelude::*;

verus! {

/// How query results are rendered downstream.
#[derive(Clone, Copy, Debug, PartialEq, Eq, Structural)]
pub enum OutputFormat {
    JSON,
    CSV,
}

/// One decoded result row, cells already rendered to text by the row
/// decoder; an absent cell is `None`.
#[derive(Debug, PartialEq)]
pub struct RawRow {
    pub columns: Vec<String>,
    pub run_uuid: Option<String>,
    pub iteration_uuid: Option<String>,
    pub metric_type: Option<String>,
    pub breakout_values: Vec<String>,
    pub begin: Option<String>,
    pub finish: Option<String>,
    pub value: Option<String>,
}

/// The texts of a list of strings.
pub open spec fn strs_view(v: Seq<String>) -> Seq<Seq<char>> {
    v.map_values(|s: String| s@)
}

proof fn lemma_strs_view_push(v: Seq<String>, x: String)
    ensures
        strs_view(v.push(x)) == strs_view(v) + seq![x@],
{
    assert(strs_view(v.push(x)) =~= strs_view(v) + seq![x@]);
}

/// The text of an absent UUID cell: the nil UUID.
pub open spec fn nil_uuid_text() -> Seq<char> {
    "00000000-0000-0000-0000-000000000000"@
}

/// The text of an absent time cell: the Unix epoch.
pub open spec fn epoch_text() -> Seq<char> {
    "1970-01-01 00:00:00 UTC"@
}

/// A cell's text, or a default when it is absent.
pub open spec fn cell_or(v: Option<String>, dflt: Seq<char>) -> Seq<char> {
    match v {
        Option::Some(s) => s@,
        Option::None => dflt,
    }
}

/// The uniform cells of one row: run and iteration identifiers (nil when
/// absent), metric type (`null` when absent), one value per breakout, then
/// the window bounds (epoch when absent) and the aggregated value (`0` when
/// absent).
pub open spec fn row_cells(r: RawRow) -> Seq<Seq<char>> {
    seq![
        cell_or(r.run_uuid, nil_uuid_text()),
        cell_or(r.iteration_uuid, nil_uuid_text()),
        cell_or(r.metric_type, "null"@),
    ] + strs_view(r.breakout_values@) + seq![
        cell_or(r.begin, epoch_text()),
        cell_or(r.finish, epoch_text()),
        cell_or(r.value, "0"@),
    ]
}

fn cell_or_exec(v: &Option<String>, dflt: &str) -> (r: String)
    ensures
        r@ == cell_or(*v, dflt@),
{
    match v {
        Option::Some(s) => s.clone(),
        Option::None => String::from_str(dflt),
    }
}

fn unpack_row(row: &RawRow) -> (r: Vec<String>)
    ensures
        strs_view(r@) == row_cells(*row),
{
    let mut r: Vec<String> = Vec::new();
    r.push(cell_or_exec(&row.run_uuid, "00000000-0000-0000-0000-000000000000"));
    r.push(cell_or_exec(&row.iteration_uuid, "00000000-0000-0000-0000-000000000000"));
    r.push(cell_or_exec(&row.metric_type, "null"));
    let mut i: usize = 0;
    while i < row.breakout_values.len()
        invariant
            0 <= i <= row.breakout_values@.len(),
            r@.len() == 3 + i,
            strs_view(r@) == seq![
                cell_or(row.run_uuid, nil_uuid_text()),
                cell_or(row.iteration_uuid, nil_uuid_text()),
                cell_or(row.metric_type, "null"@),
            ] + strs_view(row.breakout_values@.take(i as int)),
        decreases row.breakout_values@.len() - i,
    {
        let ghost r0 = r@;
        r.push(row.breakout_values[i].clone());
        i = i + 1;
        proof {
            lemma_strs_view_push(r0, row.breakout_values@[i - 1]);
            assert(strs_view(row.breakout_values@.take(i as int)) =~= strs_view(
                row.breakout_values@.take(i - 1),
            ) + seq![row.breakout_values@[i - 1]@]);
            assert(strs_view(r@) =~= seq![
                cell_or(row.run_uuid, nil_uuid_text()),
                cell_or(row.iteration_uuid, nil_uuid_text()),
                cell_or(row.metric_type, "null"@),
            ] + strs_view(row.breakout_values@.take(i as int)));
        }
    }
    r.push(cell_or_exec(&row.begin, "1970-01-01 00:00:00 UTC"));
    r.push(cell_or_exec(&row.finish, "1970-01-01 00:00:00 UTC"));
    r.push(cell_or_exec(&row.value, "0"));
    proof {
        assert(row.breakout_values@.take(row.breakout_values@.len() as int)
            =~= row.breakout_values@);
        assert(strs_view(r@) =~= row_cells(*row));
    }
    r
}

/// Maps decoded result rows into a header (the first row's column names)
/// and uniform text rows, defaulting absent cells.
pub fn unpack_rows(pg_rows: &Vec<RawRow>) -> (r: (Vec<String>, Vec<Vec<String>>))
    ensures
        pg_rows@.len() == 0 ==> r.0@.len() == 0,
        pg_rows@.len() > 0 ==> strs_view(r.0@) == strs_view(pg_rows@[0].columns@),
        r.1@.len() == pg_rows@.len(),
        forall|i: int|
            0 <= i < pg_rows@.len() ==> strs_view((#[trigger] r.1@[i])@) == row_cells(
                pg_rows@[i],
            ),
{
    let mut results: Vec<Vec<String>> = Vec::new();
    let mut i: usize = 0;
    while i < pg_rows.len()
        invariant
            0 <= i <= pg_rows@.len(),
            results@.len() == i,
            forall|k: int|
                0 <= k < i ==> strs_view((#[trigger] results@[k])@) == row_cells(pg_rows@[k]),
        decreases pg_rows@.len() - i,
    {
        results.push(unpack_row(&pg_rows[i]));
        i = i + 1;
    }
    let mut header: Vec<String> = Vec::new();
    if pg_rows.len() > 0 {
        let cols = &pg_rows[0].columns;
        let mut j: usize = 0;
        while j < cols.len()
            invariant
                0 <= j <= cols@.len(),
                cols == &pg_rows@[0].columns,
                pg_rows@.len() > 0,
                header@.len() == j,
                forall|k: int| 0 <= k < j ==> (#[trigger] header@[k])@ == cols@[k]@,
            decreases cols@.len() - j,
        {
            header.push(cols[j].clone());
            j = j + 1;
        }
        proof {
            assert(strs_view(header@) =~= strs_view(pg_rows@[0].columns@));
        }
    }
    (header, results)
}

/// Splits an optional `name=value` tag filter into its name and value
/// parts: the texts before the first `=` and between the first and second.
pub fn split_tag_filter(tag: &Option<String>) -> (r: (Option<String>, Option<String>))
    ensures
        tag is None ==> r == (Option::<String>::None, Option::<String>::None),
        tag matches Option::Some(t) ==> ({
            &&& r.0 matches Option::Some(nm) && nm@ == crate::metricq::token_name(t@)
            &&& ((r.1 is None) == (crate::metricq::token_value(t@) is None))
            &&& (r.1 matches Option::Some(v) ==> crate::metricq::token_value(t@) matches
                Option::Some(tv) && v@ == tv)
        }),
{
    match tag {
        Option::None => (Option::None, Option::None),
        Option::Some(t) => {
            let (nm, v) = crate::metricq::split_breakout_token(t.as_str());
            (Option::Some(nm), v)
        },
    }
}

} // verus!
