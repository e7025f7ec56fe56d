//! Parameterized SQL statements.
//!
//! A [`Statement`] pairs the statement text with its ordered bind-parameter
//! list; executing it against the store is the embedding application's job.
//! This module also renders decimal placeholder indices and builds the
//! multi-row `VALUES` clause that every bulk insert uses.

use vstd::prelude::*;

verus! {

/// One bind parameter, as the typed plain value the store receives.
#[derive(Debug, PartialEq)]
pub enum SqlParam {
    /// A 128-bit UUID.
    Uuid(u128),
    /// A nullable UUID column value.
    OptUuid(Option<u128>),
    /// An instant, in milliseconds since the Unix epoch.
    Ts(i64),
    /// A text value.
    Str(String),
    /// A nullable text value.
    OptStr(Option<String>),
    /// A 64-bit signed integer.
    I64(i64),
    /// A 64-bit floating-point value, carried as its bit pattern.
    F64Bits(u64),
}

/// A parameterized SQL statement: text, ordered parameters, and the number
/// of rows it writes (zero for a query).
#[derive(Debug, PartialEq)]
pub struct Statement {
    pub sql: String,
    pub params: Vec<SqlParam>,
    pub rows: usize,
}

/// The decimal digit character for `d`.
pub open spec fn digit_char(d: nat) -> char {
    seq!['0', '1', '2', '3', '4', '5', '6', '7', '8', '9'][d as int]
}

/// The decimal rendering of `n`, most significant digit first.
pub open spec fn dec_digits(n: nat) -> Seq<char>
    decreases n,
{
    if n < 10 {
        seq![digit_char(n)]
    } else {
        dec_digits(n / 10) + seq![digit_char(n % 10)]
    }
}

fn digit_str(d: u64) -> (r: &'static str)
    requires
        d < 10,
    ensures
        r@ == seq![digit_char(d as nat)],
{
    proof {
        reveal_strlit("0");
        reveal_strlit("1");
        reveal_strlit("2");
        reveal_strlit("3");
        reveal_strlit("4");
        reveal_strlit("5");
        reveal_strlit("6");
        reveal_strlit("7");
        reveal_strlit("8");
        reveal_strlit("9");
    }
    let r: &'static str = match d {
        0 => "0",
        1 => "1",
        2 => "2",
        3 => "3",
        4 => "4",
        5 => "5",
        6 => "6",
        7 => "7",
        8 => "8",
        _ => "9",
    };
    proof {
        assert(r@ =~= seq![digit_char(d as nat)]);
    }
    r
}

/// Renders `n` in decimal.
pub fn u64_to_dec(n: u64) -> (r: String)
    ensures
        r@ == dec_digits(n as nat),
    decreases n,
{
    if n < 10 {
        String::from_str(digit_str(n))
    } else {
        let mut s = u64_to_dec(n / 10);
        s.append(digit_str(n % 10));
        s
    }
}

/// The text `$k`.
pub open spec fn placeholder(k: nat) -> Seq<char> {
    "$"@ + dec_digits(k)
}

/// Appends `$k` to `s`.
pub fn push_placeholder(s: &mut String, k: u64)
    ensures
        final(s)@ == old(s)@ + placeholder(k as nat),
{
    s.append("$");
    let d = u64_to_dec(k);
    s.append(d.as_str());
    proof {
        assert(s@ =~= old(s)@ + placeholder(k as nat));
    }
}

/// The text `$start, $start+1, ..., $start+cols-1`.
pub open spec fn placeholder_list(start: nat, cols: nat) -> Seq<char>
    decreases cols,
{
    if cols <= 1 {
        placeholder(start)
    } else {
        placeholder_list(start, (cols - 1) as nat) + ", "@ + placeholder(
            (start + cols - 1) as nat,
        )
    }
}

/// The text `($start, ..., $start+cols-1)`.
pub open spec fn row_tuple(start: nat, cols: nat) -> Seq<char> {
    "("@ + placeholder_list(start, cols) + ")"@
}

/// The `VALUES` tuples for `rows` rows of `cols` columns each, with
/// placeholders numbered from 1: `($1, ...), ($cols+1, ...), ...`.
pub open spec fn values_tuples(cols: nat, rows: nat) -> Seq<char>
    decreases rows,
{
    if rows <= 1 {
        row_tuple(1, cols)
    } else {
        values_tuples(cols, (rows - 1) as nat) + ", "@ + row_tuple(
            ((rows - 1) * cols + 1) as nat,
            cols,
        )
    }
}

/// The parameters of `rows`, flattened in row order.
pub open spec fn flat_params(rows: Seq<Seq<SqlParam>>) -> Seq<SqlParam>
    decreases rows.len(),
{
    if rows.len() == 0 {
        Seq::empty()
    } else {
        flat_params(rows.drop_last()) + rows.last()
    }
}

/// The flattened parameters of rows of `c` columns each have length
/// `rows.len() * c`.
pub proof fn lemma_flat_params_len(rows: Seq<Seq<SqlParam>>, c: nat)
    requires
        forall|k: int| 0 <= k < rows.len() ==> (#[trigger] rows[k]).len() == c,
    ensures
        flat_params(rows).len() == rows.len() * c,
    decreases rows.len(),
{
    if rows.len() == 0 {
    } else {
        lemma_flat_params_len(rows.drop_last(), c);
        assert((rows.len() - 1) * c + c == rows.len() * c) by (nonlinear_arith);
    }
}

/// Row `i` of the flattened parameters is the subrange at `i * c`.
pub proof fn lemma_flat_params_index(rows: Seq<Seq<SqlParam>>, c: nat, i: int)
    requires
        forall|k: int| 0 <= k < rows.len() ==> (#[trigger] rows[k]).len() == c,
        0 <= i < rows.len(),
    ensures
        flat_params(rows).len() == rows.len() * c,
        flat_params(rows).subrange(i * c, i * c + c) == rows[i],
    decreases rows.len(),
{
    lemma_flat_params_len(rows, c);
    let dl = rows.drop_last();
    lemma_flat_params_len(dl, c);
    if i == rows.len() - 1 {
        assert(i * c == (rows.len() - 1) * c);
        assert(flat_params(rows).subrange(i * c, i * c + c) =~= rows[i]);
    } else {
        lemma_flat_params_index(dl, c, i);
        assert(i * c + c <= (rows.len() - 1) * c) by (nonlinear_arith)
            requires
                0 <= i < rows.len() - 1,
        ;
        assert(flat_params(rows).subrange(i * c, i * c + c) =~= flat_params(dl).subrange(
            i * c,
            i * c + c,
        ));
    }
}

/// Appends `($start, ..., $start+cols-1)` to `s`.
fn push_row_tuple(s: &mut String, start: u64, cols: u64)
    requires
        cols >= 1,
        start + cols <= u64::MAX,
    ensures
        final(s)@ == old(s)@ + row_tuple(start as nat, cols as nat),
{
    s.append("(");
    push_placeholder(s, start);
    let mut j: u64 = 1;
    while j < cols
        invariant
            1 <= j <= cols,
            start + cols <= u64::MAX,
            s@ == old(s)@ + "("@ + placeholder_list(start as nat, j as nat),
        decreases cols - j,
    {
        s.append(", ");
        push_placeholder(s, start + j);
        j = j + 1;
        proof {
            assert(s@ =~= old(s)@ + "("@ + placeholder_list(start as nat, j as nat));
        }
    }
    s.append(")");
    proof {
        assert(s@ =~= old(s)@ + row_tuple(start as nat, cols as nat));
    }
}

/// Builds one multi-row INSERT: `head` followed by the `VALUES` tuples, with
/// the rows' parameters flattened in order.
///
/// `head` must end where the tuple list begins, e.g.
/// `"INSERT INTO tag (run_uuid, name, val) VALUES "`.
#[verifier::rlimit(30)]
pub fn multi_row_insert(head: &str, cols: usize, rows: Vec<Vec<SqlParam>>) -> (r: Statement)
    requires
        rows.len() >= 1,
        cols >= 1,
        forall|i: int| 0 <= i < rows.len() ==> (#[trigger] rows[i]).len() == cols,
        rows.len() * cols + 1 <= u64::MAX,
    ensures
        r.sql@ == head@ + values_tuples(cols as nat, rows.len() as nat),
        r.params@ == flat_params(rows@.map_values(|v: Vec<SqlParam>| v@)),
        r.rows == rows.len(),
{
    let ghost all_rows: Seq<Seq<SqlParam>> = rows@.map_values(|v: Vec<SqlParam>| v@);
    let mut sql = String::from_str(head);
    let mut params: Vec<SqlParam> = Vec::new();
    let nrows = rows.len();
    let mut rest = rows;
    let mut i: usize = 0;
    proof {
        assert(flat_params(all_rows.take(0)) =~= Seq::<SqlParam>::empty());
    }
    proof {
        assert forall|k: int| 0 <= k < nrows implies (#[trigger] rest@[k])@ == all_rows[k] by {
            assert(all_rows[k] == rest@[k]@);
        }
    }
    while i < nrows
        invariant
            0 <= i <= nrows,
            all_rows.len() == nrows,
            rest@.len() == nrows - i,
            forall|k: int| 0 <= k < rest@.len() ==> (#[trigger] rest@[k])@ == all_rows[i + k],
            cols >= 1,
            nrows * cols + 1 <= u64::MAX,
            forall|k: int| 0 <= k < all_rows.len() ==> (#[trigger] all_rows[k]).len() == cols,
            i == 0 ==> sql@ == head@,
            i > 0 ==> sql@ == head@ + values_tuples(cols as nat, i as nat),
            params@ == flat_params(all_rows.take(i as int)),
        decreases nrows - i,
    {
        proof {
            assert(i * cols + cols <= nrows * cols) by (nonlinear_arith)
                requires
                    i + 1 <= nrows,
                    cols >= 1,
            ;
        }
        if i > 0 {
            sql.append(", ");
        }
        let start: u64 = (i as u64) * (cols as u64) + 1;
        proof {
            assert(start as nat == i * cols + 1) by (nonlinear_arith)
                requires
                    start == (i as u64) * (cols as u64) + 1,
                    i * cols + cols <= u64::MAX - 1,
                    i <= u64::MAX,
                    cols <= u64::MAX,
            ;
        }
        push_row_tuple(&mut sql, start, cols as u64);
        let ghost rest0 = rest@;
        let mut row = rest.remove(0);
        let ghost this_row: Seq<SqlParam> = all_rows[i as int];
        proof {
            assert(row@ == this_row);
            let ghost i1 = i + 1 as int;
            assert forall|k: int| 0 <= k < rest@.len() implies (#[trigger] rest@[k])@
                == all_rows[i1 + k] by {
                assert(rest@[k] == rest0[k + 1]);
            }
        }
        let mut j: usize = 0;
        while row.len() > 0
            invariant
                row@ =~= this_row.skip(j as int),
                j <= this_row.len(),
                this_row.len() == cols,
                cols <= usize::MAX,
                params@ == flat_params(all_rows.take(i as int)) + this_row.take(j as int),
                start as nat == i * cols + 1,
                i == 0 ==> sql@ == head@ + row_tuple(start as nat, cols as nat),
                i > 0 ==> sql@ == head@ + values_tuples(cols as nat, i as nat) + ", "@
                    + row_tuple(start as nat, cols as nat),
            decreases row.len(),
        {
            let p = row.remove(0);
            params.push(p);
            proof {
                assert(this_row.take(j as int).push(this_row[j as int]) =~= this_row.take(
                    j + 1,
                ));
            }
            j = j + 1;
        }
        i = i + 1;
        proof {
            assert(this_row.take(this_row.len() as int) =~= this_row);
            assert(all_rows.take(i as int).drop_last() =~= all_rows.take(i - 1));
            assert(all_rows.take(i as int).last() == this_row);
            assert(params@ == flat_params(all_rows.take(i as int)));
            if i > 1 {
                assert(values_tuples(cols as nat, i as nat) == values_tuples(
                    cols as nat,
                    (i - 1) as nat,
                ) + ", "@ + row_tuple(((i - 1) * (cols as nat) + 1) as nat, cols as nat));
                assert(start as nat == (i - 1) * (cols as nat) + 1);
                assert(row_tuple(start as nat, cols as nat) == row_tuple(
                    ((i - 1) * (cols as nat) + 1) as nat,
                    cols as nat,
                ));
                assert(sql@ =~= head@ + values_tuples(cols as nat, i as nat));
            } else {
                assert(i == 1);
                assert(values_tuples(cols as nat, 1) == row_tuple(1, cols as nat));
                assert(start as nat == 1);
                assert(sql@ == head@ + row_tuple(start as nat, cols as nat));
                assert(sql@ =~= head@ + values_tuples(cols as nat, i as nat));
            }
        }
    }
    proof {
        assert(all_rows.take(nrows as int) =~= all_rows);
        assert(flat_params(all_rows.take(nrows as int)) == flat_params(all_rows));
    }
    Statement { sql, params, rows: nrows }
}


/// A bind parameter as mathematics: texts are character sequences.
pub enum SqlParamView {
    Uuid(u128),
    OptUuid(Option<u128>),
    Ts(i64),
    Str(Seq<char>),
    OptStr(Option<Seq<char>>),
    I64(i64),
    F64Bits(u64),
}

/// The mathematical value of a bind parameter.
pub open spec fn param_view(p: SqlParam) -> SqlParamView {
    match p {
        SqlParam::Uuid(u) => SqlParamView::Uuid(u),
        SqlParam::OptUuid(u) => SqlParamView::OptUuid(u),
        SqlParam::Ts(t) => SqlParamView::Ts(t),
        SqlParam::Str(s) => SqlParamView::Str(s@),
        SqlParam::OptStr(s) => SqlParamView::OptStr(
            match s {
                Option::Some(x) => Option::Some(x@),
                Option::None => Option::None,
            },
        ),
        SqlParam::I64(n) => SqlParamView::I64(n),
        SqlParam::F64Bits(b) => SqlParamView::F64Bits(b),
    }
}

} // verus!
