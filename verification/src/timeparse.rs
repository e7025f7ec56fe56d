//! Timestamp parsing: an instant is given either as an RFC 3339 text or as
//! a count of milliseconds since the Unix epoch in decimal.

use vstd::prelude::*;

use crate::errors::SCDMError;

verus! {

/// What chrono parses an RFC 3339 timestamp text to, in milliseconds since
/// the Unix epoch; `None` when the text does not parse.  A function of the
/// text alone.
pub uninterp spec fn rfc3339_millis(s: Seq<char>) -> Option<i64>;

/// Relies on chrono: `str::parse::<DateTime<Utc>>` deterministically parses
/// an RFC 3339 timestamp text, and `timestamp_millis` returns its
/// non-leap-milliseconds since the Unix epoch (chrono's date range keeps
/// that product within `i64`).
#[verifier::external_body]
fn parse_rfc3339_millis(s: &str) -> (r: Option<i64>)
    ensures
        r == rfc3339_millis(s@),
{
    match s.parse::<chrono::DateTime<chrono::Utc>>() {
        Ok(dt) => Some(dt.timestamp_millis()),
        Err(_) => None,
    }
}

/// Whether chrono can represent a count of epoch milliseconds as an
/// instant: `DateTime::from_timestamp_millis` documents `None` on an
/// out-of-range count.  A function of the count alone.
pub uninterp spec fn chrono_millis_valid(n: i64) -> bool;

/// Relies on chrono's `DateTime::from_timestamp_millis`: `Some` exactly on
/// the counts within chrono's representable date range.
#[verifier::external_body]
fn timestamp_millis_representable(n: i64) -> (r: bool)
    ensures
        r == chrono_millis_valid(n),
{
    chrono::DateTime::from_timestamp_millis(n).is_some()
}

/// Whether `c` is a decimal digit.
pub open spec fn is_digit(c: char) -> bool {
    '0' <= c && c <= '9'
}

/// Whether every character of `s` is a decimal digit.
pub open spec fn all_digits(s: Seq<char>) -> bool {
    forall|i: int| 0 <= i < s.len() ==> is_digit(#[trigger] s[i])
}

/// The value of a digit string.
pub open spec fn dec_value(s: Seq<char>) -> int
    decreases s.len(),
{
    if s.len() == 0 {
        0
    } else {
        dec_value(s.drop_last()) * 10 + (s.last() as int - '0' as int)
    }
}

proof fn lemma_dec_value_nonneg(s: Seq<char>)
    requires
        all_digits(s),
    ensures
        dec_value(s) >= 0,
    decreases s.len(),
{
    if s.len() > 0 {
        assert(all_digits(s.drop_last())) by {
            assert forall|i: int| 0 <= i < s.len() - 1 implies is_digit(
                #[trigger] s.drop_last()[i],
            ) by {
                assert(s.drop_last()[i] == s[i]);
            }
        }
        lemma_dec_value_nonneg(s.drop_last());
        assert(is_digit(s[s.len() - 1]));
    }
}

proof fn lemma_dec_value_prefix_bound(s: Seq<char>, k: int)
    requires
        all_digits(s),
        0 <= k <= s.len(),
    ensures
        dec_value(s) >= dec_value(s.take(k)),
    decreases s.len() - k,
{
    if k < s.len() {
        lemma_dec_value_prefix_bound(s, k + 1);
        assert(s.take(k + 1).drop_last() =~= s.take(k));
        assert(s.take(k + 1).last() == s[k]);
        assert(all_digits(s.take(k))) by {
            assert forall|i: int| 0 <= i < k implies is_digit(#[trigger] s.take(k)[i]) by {
                assert(s.take(k)[i] == s[i]);
            }
        }
        lemma_dec_value_nonneg(s.take(k));
        assert(is_digit(s[k]));
        assert(dec_value(s.take(k + 1)) >= dec_value(s.take(k))) by (nonlinear_arith)
            requires
                dec_value(s.take(k + 1)) == dec_value(s.take(k)) * 10 + (s[k] as int - '0' as int),
                dec_value(s.take(k)) >= 0,
                s[k] as int - '0' as int >= 0,
        ;
    } else {
        assert(s.take(k) =~= s);
    }
}

/// The signed 64-bit integer a text denotes: an optional sign, then one or
/// more decimal digits, the whole text consumed, the value representable.
pub open spec fn parse_i64(s: Seq<char>) -> Option<i64> {
    let neg = s.len() > 0 && s[0] == '-';
    let signed = s.len() > 0 && (s[0] == '-' || s[0] == '+');
    let ds = if signed {
        s.skip(1)
    } else {
        s
    };
    if ds.len() == 0 || !all_digits(ds) {
        Option::None
    } else if neg {
        if dec_value(ds) <= 0x8000_0000_0000_0000 {
            Option::Some((-dec_value(ds)) as i64)
        } else {
            Option::None
        }
    } else {
        if dec_value(ds) <= 0x7fff_ffff_ffff_ffff {
            Option::Some(dec_value(ds) as i64)
        } else {
            Option::None
        }
    }
}

/// Parses a signed decimal 64-bit integer.
pub fn parse_i64_str(s: &str) -> (r: Option<i64>)
    ensures
        r == parse_i64(s@),
{
    let n = s.unicode_len();
    if n == 0 {
        return Option::None;
    }
    let c0 = s.get_char(0);
    let neg = c0 == '-';
    let signed = c0 == '-' || c0 == '+';
    let start: usize = if signed {
        1
    } else {
        0
    };
    let ghost ds = if signed {
        s@.skip(1)
    } else {
        s@
    };
    if n == start {
        return Option::None;
    }
    let bound: i128 = if neg {
        0x8000_0000_0000_0000
    } else {
        0x7fff_ffff_ffff_ffff
    };
    let mut acc: i128 = 0;
    let mut i: usize = start;
    proof {
        assert(ds.take(0) =~= Seq::<char>::empty());
    }
    while i < n
        invariant
            start <= i <= n,
            n == s@.len(),
            n > 0,
            signed == (s@[0] == '-' || s@[0] == '+'),
            neg == (s@[0] == '-'),
            bound == if neg {
                0x8000_0000_0000_0000i128
            } else {
                0x7fff_ffff_ffff_ffffi128
            },
            start == if signed {
                1int
            } else {
                0int
            },
            ds == (if signed {
                s@.skip(1)
            } else {
                s@
            }),
            ds.len() == n - start,
            all_digits(ds.take(i - start)),
            acc == dec_value(ds.take(i - start)),
            0 <= acc <= bound,
            bound <= 0x8000_0000_0000_0000,
        decreases n - i,
    {
        let c = s.get_char(i);
        if !('0' <= c && c <= '9') {
            proof {
                assert(0 <= i - start < ds.len());
                assert(ds[i - start] == s@[i as int]);
                assert(!is_digit(ds[i - start]));
                assert(!all_digits(ds));
                assert(parse_i64(s@) is None);
            }
            return Option::None;
        }
        let d: i128 = (c as u32) as i128 - ('0' as u32) as i128;
        acc = acc * 10 + d;
        i = i + 1;
        proof {
            assert(ds.take(i - start).drop_last() =~= ds.take(i - start - 1));
            assert(ds.take(i - start).last() == ds[i - start - 1]);
            assert(ds[i - start - 1] == s@[i - 1]);
            assert(acc == dec_value(ds.take(i - start)));
            assert(all_digits(ds.take(i - start))) by {
                assert forall|k: int| 0 <= k < i - start implies is_digit(
                    #[trigger] ds.take(i - start)[k],
                ) by {
                    assert(ds.take(i - start)[k] == ds.take(i - start - 1 + 1)[k]);
                    if k < i - start - 1 {
                        assert(ds.take(i - start)[k] == ds.take(i - start - 1)[k]);
                    }
                }
            }
        }
        if acc > bound {
            proof {
                if all_digits(ds) {
                    assert(ds.take(ds.len() as int) =~= ds);
                    lemma_dec_value_prefix_bound(ds, i - start);
                    assert(dec_value(ds) > bound);
                }
                assert(parse_i64(s@) is None);
            }
            return Option::None;
        }
    }
    proof {
        assert(ds.take(i - start) =~= ds);
    }
    if neg {
        Option::Some((-acc) as i64)
    } else {
        Option::Some(acc as i64)
    }
}

/// Parses a timestamp given as an RFC 3339 text or as epoch milliseconds in
/// decimal, in that order; a decimal count outside chrono's representable
/// date range is rejected, as are texts in neither form.  The error carries
/// the offending text.
pub fn parse_timestamp_str(s: &str) -> (r: Result<i64, SCDMError>)
    ensures
        rfc3339_millis(s@) matches Option::Some(ms) ==> r == Result::<i64, SCDMError>::Ok(ms),
        rfc3339_millis(s@) is None ==> ({
            ||| (parse_i64(s@) matches Option::Some(n) && chrono_millis_valid(n) && r
                == Result::<i64, SCDMError>::Ok(n))
            ||| ((parse_i64(s@) is None || (parse_i64(s@) matches Option::Some(n)
                && !chrono_millis_valid(n))) && (r matches Result::Err(e) && (e matches
                SCDMError::FailedTimestampParse(m) && m@ == s@)))
        }),
{
    match parse_rfc3339_millis(s) {
        Option::Some(ms) => Result::Ok(ms),
        Option::None => {
            match parse_i64_str(s) {
                Option::Some(nval) => {
                    if timestamp_millis_representable(nval) {
                        Result::Ok(nval)
                    } else {
                        Result::Err(SCDMError::FailedTimestampParse(String::from_str(s)))
                    }
                },
                Option::None => Result::Err(
                    SCDMError::FailedTimestampParse(String::from_str(s)),
                ),
            }
        },
    }
}

} // verus!
