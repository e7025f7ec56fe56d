//! Text renderings of a metric descriptor's attribute map: the `names_list`
//! column (keys joined with commas) and the `names` column (a flat JSON
//! object).  An entry whose source value was not a string is rendered as
//! JSON `null`.

use vstd::prelude::*;

use crate::model::NameVal;

verus! {

/// The hexadecimal digit character for `d`.
pub open spec fn hex_char(d: nat) -> char {
    seq![
        '0', '1', '2', '3', '4', '5', '6', '7', '8', '9', 'a', 'b', 'c', 'd', 'e',
        'f',
    ][d as int]
}

/// The JSON string-escape of one character.
pub open spec fn json_escaped_char(c: char) -> Seq<char> {
    if c == '"' {
        seq!['\\', '"']
    } else if c == '\\' {
        seq!['\\', '\\']
    } else if c == '\n' {
        seq!['\\', 'n']
    } else if c == '\r' {
        seq!['\\', 'r']
    } else if c == '\t' {
        seq!['\\', 't']
    } else if (c as nat) < 32 {
        seq!['\\', 'u', '0', '0', hex_char((c as nat) / 16), hex_char((c as nat) % 16)]
    } else {
        seq![c]
    }
}

/// The JSON string-escape of a text.
pub open spec fn json_escaped(s: Seq<char>) -> Seq<char>
    decreases s.len(),
{
    if s.len() == 0 {
        Seq::empty()
    } else {
        json_escaped(s.drop_last()) + json_escaped_char(s.last())
    }
}

fn hex_digit_str(d: u32) -> (r: &'static str)
    requires
        d < 16,
    ensures
        r@ == seq![hex_char(d as nat)],
{
    proof {
        reveal_strlit("0");
        reveal_strlit("1");
        reveal_strlit("2");
        reveal_strlit("3");
        reveal_strlit("4");
        reveal_strlit("5");
        reveal_strlit("6");
        reveal_strlit("7");
        reveal_strlit("8");
        reveal_strlit("9");
        reveal_strlit("a");
        reveal_strlit("b");
        reveal_strlit("c");
        reveal_strlit("d");
        reveal_strlit("e");
        reveal_strlit("f");
    }
    let r: &'static str = match d {
        0 => "0",
        1 => "1",
        2 => "2",
        3 => "3",
        4 => "4",
        5 => "5",
        6 => "6",
        7 => "7",
        8 => "8",
        9 => "9",
        10 => "a",
        11 => "b",
        12 => "c",
        13 => "d",
        14 => "e",
        _ => "f",
    };
    proof {
        assert(r@ =~= seq![hex_char(d as nat)]);
    }
    r
}

/// Appends the JSON string-escape of `s` to `out`.
fn push_json_escaped(out: &mut String, s: &str)
    ensures
        final(out)@ == old(out)@ + json_escaped(s@),
{
    let n = s.unicode_len();
    let mut i: usize = 0;
    proof {
        assert(json_escaped(s@.take(0)) =~= Seq::<char>::empty());
        assert(out@ =~= old(out)@ + json_escaped(s@.take(0)));
    }
    while i < n
        invariant
            0 <= i <= n,
            n == s@.len(),
            out@ == old(out)@ + json_escaped(s@.take(i as int)),
        decreases n - i,
    {
        let c = s.get_char(i);
        if c == '"' {
            out.append("\\\"");
            proof {
                reveal_strlit("\\\"");
                assert("\\\""@ =~= json_escaped_char(c));
            }
        } else if c == '\\' {
            out.append("\\\\");
            proof {
                reveal_strlit("\\\\");
                assert("\\\\"@ =~= json_escaped_char(c));
            }
        } else if c == '\n' {
            out.append("\\n");
            proof {
                reveal_strlit("\\n");
                assert("\\n"@ =~= json_escaped_char(c));
            }
        } else if c == '\r' {
            out.append("\\r");
            proof {
                reveal_strlit("\\r");
                assert("\\r"@ =~= json_escaped_char(c));
            }
        } else if c == '\t' {
            out.append("\\t");
            proof {
                reveal_strlit("\\t");
                assert("\\t"@ =~= json_escaped_char(c));
            }
        } else if (c as u32) < 32 {
            out.append("\\u00");
            out.append(hex_digit_str((c as u32) / 16));
            out.append(hex_digit_str((c as u32) % 16));
            proof {
                reveal_strlit("\\u00");
                assert("\\u00"@ + seq![hex_char(((c as u32) / 16) as nat)] + seq![
                    hex_char(((c as u32) % 16) as nat),
                ] =~= json_escaped_char(c));
            }
        } else {
            let piece = s.substring_char(i, i + 1);
            out.append(piece);
            proof {
                assert(piece@ =~= seq![s@[i as int]]);
                assert(piece@ =~= json_escaped_char(c));
            }
        }
        i = i + 1;
        proof {
            assert(s@.take(i as int).drop_last() =~= s@.take(i - 1));
            assert(s@.take(i as int).last() == c);
            assert(out@ =~= old(out)@ + json_escaped(s@.take(i as int)));
        }
    }
    proof {
        assert(s@.take(n as int) =~= s@);
    }
}

/// The keys of a metric descriptor's attribute map, joined with commas.
pub open spec fn names_list_text(l: Seq<Seq<char>>) -> Seq<char>
    decreases l.len(),
{
    if l.len() == 0 {
        Seq::empty()
    } else if l.len() == 1 {
        l[0]
    } else {
        names_list_text(l.drop_last()) + ","@ + l.last()
    }
}

/// Renders the `names_list` column value.
#[verifier::rlimit(60)]
#[verifier::spinoff_prover]
pub fn push_names_list(l: &Vec<String>) -> (r: String)
    ensures
        r@ == names_list_text(l@.map_values(|s: String| s@)),
{
    let ghost m = l@.map_values(|s: String| s@);
    let mut out = String::new();
    let mut i: usize = 0;
    proof {
        assert(out@ =~= names_list_text(m.take(0)));
    }
    while i < l.len()
        invariant
            0 <= i <= l.len(),
            m == l@.map_values(|s: String| s@),
            m.len() == l@.len(),
            out@ == names_list_text(m.take(i as int)),
        decreases l.len() - i,
    {
        if i > 0 {
            out.append(",");
        }
        out.append(l[i].as_str());
        i = i + 1;
        proof {
            assert(m.take(i as int).drop_last() =~= m.take(i - 1));
            assert(m.take(i as int).last() == m[i - 1]);
            assert(m[i - 1] == l@[i - 1]@);
            assert(out@ =~= names_list_text(m.take(i as int)));
        }
    }
    proof {
        assert(m.take(l@.len() as int) =~= m);
    }
    out
}

/// The JSON rendering of one attribute entry.
pub open spec fn name_entry_text(e: NameVal) -> Seq<char> {
    "\""@ + json_escaped(e.name@) + "\":"@ + match e.val {
        Option::Some(v) => "\""@ + json_escaped(v@) + "\""@,
        Option::None => "null"@,
    }
}

/// The JSON renderings of the entries, joined with commas.
pub open spec fn name_entries_text(es: Seq<NameVal>) -> Seq<char>
    decreases es.len(),
{
    if es.len() == 0 {
        Seq::empty()
    } else if es.len() == 1 {
        name_entry_text(es[0])
    } else {
        name_entries_text(es.drop_last()) + ","@ + name_entry_text(es.last())
    }
}

/// The `names` column value: the attribute map as a flat JSON object.
pub open spec fn names_json_text(es: Seq<NameVal>) -> Seq<char> {
    "{"@ + name_entries_text(es) + "}"@
}

/// Renders the `names` column value.
#[verifier::rlimit(60)]
#[verifier::spinoff_prover]
pub fn push_names_json(es: &Vec<NameVal>) -> (r: String)
    ensures
        r@ == names_json_text(es@),
{
    let mut out = String::new();
    out.append("{");
    let mut i: usize = 0;
    proof {
        assert(name_entries_text(es@.take(0)) =~= Seq::<char>::empty());
        assert(out@ =~= "{"@ + name_entries_text(es@.take(0)));
    }
    while i < es.len()
        invariant
            0 <= i <= es.len(),
            out@ == "{"@ + name_entries_text(es@.take(i as int)),
        decreases es.len() - i,
    {
        if i > 0 {
            out.append(",");
        }
        out.append("\"");
        push_json_escaped(&mut out, es[i].name.as_str());
        out.append("\":");
        match &es[i].val {
            Option::Some(v) => {
                out.append("\"");
                push_json_escaped(&mut out, v.as_str());
                out.append("\"");
            },
            Option::None => {
                out.append("null");
            },
        }
        i = i + 1;
        proof {
            assert(es@.take(i as int).drop_last() =~= es@.take(i - 1));
            assert(es@.take(i as int).last() == es@[i - 1]);
            assert(out@ =~= "{"@ + name_entries_text(es@.take(i as int)));
        }
    }
    out.append("}");
    proof {
        assert(es@.take(es@.len() as int) =~= es@);
        assert(out@ =~= names_json_text(es@));
    }
    out
}

} // verus!
