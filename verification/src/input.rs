//! Classification of input files and index names: which files carry a flat
//! event stream or a nested result tree, and which record kind an index
//! name of the flat stream refers to.

use vstd::prelude::*;

use crate::model::IndexType;

verus! {

/// Whether a path names a newline-delimited event-stream file: it ends in
/// `.ndjson`.
pub open spec fn spec_is_ndjson(p: Seq<char>) -> bool {
    p.len() >= 7 && p.subrange(p.len() - 7, p.len() as int) == ".ndjson"@
}

/// Whether a path names a newline-delimited event-stream file.
pub fn is_ndjson(path: &str) -> (r: bool)
    ensures
        r == spec_is_ndjson(path@),
{
    let n = path.unicode_len();
    if n < 7 {
        return false;
    }
    let ext = path.substring_char(n - 7, n);
    let r = string_eq_lit(ext, ".ndjson");
    proof {
        if r {
            assert(path@.subrange(path@.len() - 7, path@.len() as int) =~= ext@);
        }
    }
    r
}

/// Whether a path names a nested result-tree file: it ends in `.json`.
pub open spec fn spec_is_json(p: Seq<char>) -> bool {
    p.len() >= 5 && p.subrange(p.len() - 5, p.len() as int) == ".json"@
}

/// Whether a path names a nested result-tree file.
pub fn is_json(path: &str) -> (r: bool)
    ensures
        r == spec_is_json(path@),
{
    let n = path.unicode_len();
    if n < 5 {
        return false;
    }
    let ext = path.substring_char(n - 5, n);
    let r = string_eq_lit(ext, ".json");
    proof {
        if r {
            assert(path@.subrange(path@.len() - 5, path@.len() as int) =~= ext@);
        }
    }
    r
}

/// Compares a text slice against a literal, by content.
fn string_eq_lit(a: &str, b: &str) -> (r: bool)
    ensures
        r == (a@ == b@),
{
    let sa = String::from_str(a);
    let sb = String::from_str(b);
    sa == sb
}

/// The index of the first occurrence of `dev-` in `s` at or after `from`,
/// or `-1` if there is none.
pub open spec fn find_dev(s: Seq<char>, from: int) -> int
    decreases s.len() - from,
{
    if from < 0 || from + 4 > s.len() {
        -1
    } else if s.subrange(from, from + 4) == "dev-"@ {
        from
    } else {
        find_dev(s, from + 1)
    }
}

/// The index of the first `@` in `s`, or `s.len()` if there is none.
pub open spec fn first_at(s: Seq<char>) -> int
    decreases s.len(),
{
    if s.len() == 0 {
        0
    } else if s[0] == '@' {
        0
    } else {
        1 + first_at(s.skip(1))
    }
}

proof fn lemma_first_at_bounds(s: Seq<char>)
    ensures
        0 <= first_at(s) <= s.len(),
        forall|j: int| 0 <= j < first_at(s) ==> s[j] != '@',
        first_at(s) < s.len() ==> s[first_at(s)] == '@',
    decreases s.len(),
{
    if s.len() > 0 && s[0] != '@' {
        lemma_first_at_bounds(s.skip(1));
        assert forall|j: int| 0 <= j < first_at(s) implies s[j] != '@' by {
            if j > 0 {
                assert(s.skip(1)[j - 1] != '@');
            }
        }
        if first_at(s) < s.len() {
            assert(s.skip(1)[first_at(s) - 1] == s[first_at(s)]);
        }
    }
}

/// The record kind of an index name: the segment between the first `dev-`
/// and the next `dev-` (or the end), cut at the first `@`, matched against
/// the eight kind names.
pub open spec fn spec_index_kind(s: Seq<char>) -> Option<IndexType> {
    let i = find_dev(s, 0);
    if i < 0 {
        Option::None
    } else {
        let j = find_dev(s, i + 4);
        let seg = if j < 0 {
            s.skip(i + 4)
        } else {
            s.subrange(i + 4, j)
        };
        let kind = seg.take(first_at(seg));
        if kind == "iteration"@ {
            Option::Some(IndexType::Iteration)
        } else if kind == "metric_data"@ {
            Option::Some(IndexType::MetricData)
        } else if kind == "metric_desc"@ {
            Option::Some(IndexType::MetricDesc)
        } else if kind == "param"@ {
            Option::Some(IndexType::Param)
        } else if kind == "period"@ {
            Option::Some(IndexType::Period)
        } else if kind == "run"@ {
            Option::Some(IndexType::Run)
        } else if kind == "sample"@ {
            Option::Some(IndexType::Sample)
        } else if kind == "tag"@ {
            Option::Some(IndexType::Tag)
        } else {
            Option::None
        }
    }
}

fn find_dev_exec(s: &str, from: usize) -> (r: Option<usize>)
    requires
        from <= s@.len(),
    ensures
        (r is None) == (find_dev(s@, from as int) < 0),
        r matches Option::Some(i) ==> i as int == find_dev(s@, from as int) && from <= i && i + 4
            <= s@.len(),
    decreases s@.len() - from,
{
    let n = s.unicode_len();
    if n < 4 || from > n - 4 {
        return Option::None;
    }
    let piece = s.substring_char(from, from + 4);
    if string_eq_lit(piece, "dev-") {
        proof {
            assert(s@.subrange(from as int, from + 4) == "dev-"@);
        }
        Option::Some(from)
    } else {
        proof {
            assert(s@.subrange(from as int, from + 4) != "dev-"@);
        }
        find_dev_exec(s, from + 1)
    }
}

fn find_at_exec(s: &str) -> (r: usize)
    ensures
        r as int == first_at(s@),
{
    let n = s.unicode_len();
    let mut i: usize = 0;
    while i < n
        invariant
            0 <= i <= n,
            n == s@.len(),
            forall|j: int| 0 <= j < i ==> s@[j] != '@',
        decreases n - i,
    {
        let c = s.get_char(i);
        if c == '@' {
            proof {
                lemma_first_at_bounds(s@);
                let fa = first_at(s@);
                if fa < i as int {
                    assert(s@[fa] == '@');
                }
            }
            return i;
        }
        i = i + 1;
    }
    proof {
        lemma_first_at_bounds(s@);
        if first_at(s@) < n as int {
            assert(s@[first_at(s@)] == '@');
        }
    }
    n
}

/// Maps an index name of the flat event stream to its record kind: the
/// segment between the first `dev-` and the next (or the end), cut at the
/// first `@`; an unrecognized segment yields `None`.
pub fn index_name_to_type(name: &str) -> (r: Option<IndexType>)
    ensures
        r == spec_index_kind(name@),
{
    let i = match find_dev_exec(name, 0) {
        Option::Some(i) => i,
        Option::None => {
            return Option::None;
        },
    };
    let n = name.unicode_len();
    let j = find_dev_exec(name, i + 4);
    let seg = match j {
        Option::Some(j) => name.substring_char(i + 4, j),
        Option::None => name.substring_char(i + 4, n),
    };
    proof {
        let gi = find_dev(name@, 0);
        let gj = find_dev(name@, gi + 4);
        if gj < 0 {
            assert(seg@ =~= name@.skip(gi + 4));
        } else {
            assert(seg@ =~= name@.subrange(gi + 4, gj));
        }
    }
    let a = find_at_exec(seg);
    proof {
        lemma_first_at_bounds(seg@);
    }
    let kind = seg.substring_char(0, a);
    proof {
        assert(kind@ =~= seg@.take(first_at(seg@)));
    }
    if string_eq_lit(kind, "iteration") {
        Option::Some(IndexType::Iteration)
    } else if string_eq_lit(kind, "metric_data") {
        Option::Some(IndexType::MetricData)
    } else if string_eq_lit(kind, "metric_desc") {
        Option::Some(IndexType::MetricDesc)
    } else if string_eq_lit(kind, "param") {
        Option::Some(IndexType::Param)
    } else if string_eq_lit(kind, "period") {
        Option::Some(IndexType::Period)
    } else if string_eq_lit(kind, "run") {
        Option::Some(IndexType::Run)
    } else if string_eq_lit(kind, "sample") {
        Option::Some(IndexType::Sample)
    } else if string_eq_lit(kind, "tag") {
        Option::Some(IndexType::Tag)
    } else {
        Option::None
    }
}

/// The primary-metric field a nested iteration gets when its document
/// leaves it out.
pub fn default_metric() -> (r: String)
    ensures
        r@ == "metric"@,
{
    String::from_str("metric")
}

/// The primary-period field a nested iteration gets when its document
/// leaves it out.
pub fn default_period() -> (r: String)
    ensures
        r@ == "period"@,
{
    String::from_str("period")
}

} // verus!
