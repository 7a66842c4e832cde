//! String formatting policy for the derived domain queries: decimal
//! rendering of keys, and the exact title / description combination rules.
//!
//! An input string is treated as absent when it is unset or empty; equal
//! pairs collapse to the single form.

use vstd::prelude::*;

verus! {

/// The decimal digit character for `d`.
pub open spec fn digit_char(d: int) -> char
    recommends
        0 <= d < 10,
{
    if d == 0 {
        '0'
    } else if d == 1 {
        '1'
    } else if d == 2 {
        '2'
    } else if d == 3 {
        '3'
    } else if d == 4 {
        '4'
    } else if d == 5 {
        '5'
    } else if d == 6 {
        '6'
    } else if d == 7 {
        '7'
    } else if d == 8 {
        '8'
    } else {
        '9'
    }
}

/// The decimal rendering of a non-negative integer, most significant
/// digit first, no leading zeroes (except for zero itself).
pub open spec fn dec_str(n: int) -> Seq<char>
    recommends
        n >= 0,
    decreases n,
{
    if n < 10 {
        seq![digit_char(n)]
    } else {
        dec_str(n / 10).push(digit_char(n % 10))
    }
}

/// The decimal rendering of a signed 32-bit integer, with a leading `-`
/// for negative values.
pub open spec fn int_str(k: i32) -> Seq<char> {
    if k < 0 {
        seq!['-'] + dec_str(-(k as int))
    } else {
        dec_str(k as int)
    }
}

/// "No usable value": unset and empty collapse to absent.
pub open spec fn norm_text(x: Option<Seq<char>>) -> Option<Seq<char>> {
    match x {
        Some(s) => if s.len() > 0 {
            Some(s)
        } else {
            None
        },
        None => None,
    }
}

/// The formatted object title, from the normalized `name` and
/// `display_name` and the object's id.
pub open spec fn title_spec(name: Option<Seq<char>>, display: Option<Seq<char>>, id: i32) -> Seq<
    char,
> {
    match (norm_text(name), norm_text(display)) {
        (Some(n), Some(d)) => if d != n {
            d + " ("@ + n + ") | Object #"@ + int_str(id)
        } else {
            n + " | Object #"@ + int_str(id)
        },
        (Some(n), None) => n + " | Object #"@ + int_str(id),
        (None, Some(d)) => d + " | Object #"@ + int_str(id),
        (None, None) => "Object #"@ + int_str(id),
    }
}

/// The formatted object description, from the normalized `description`
/// and `internal_notes`.
pub open spec fn description_spec(description: Option<Seq<char>>, notes: Option<Seq<char>>) -> Seq<
    char,
> {
    match (norm_text(description), norm_text(notes)) {
        (Some(d), Some(n)) => if d != n {
            d + " ("@ + n + ")"@
        } else {
            d
        },
        (Some(d), None) => d,
        (None, Some(n)) => n,
        (None, None) => Seq::empty(),
    }
}

/// The view of an optional borrowed string.
pub open spec fn opt_string_view(x: Option<&String>) -> Option<Seq<char>> {
    match x {
        Some(s) => Some(s@),
        None => None,
    }
}

/// One decimal digit as a string slice.
fn digit_to_str(d: u32) -> (s: &'static str)
    requires
        d < 10,
    ensures
        s@ == seq![digit_char(d as int)],
{
    proof {
        reveal_strlit("0");
        reveal_strlit("1");
        reveal_strlit("2");
        reveal_strlit("3");
        reveal_strlit("4");
        reveal_strlit("5");
        reveal_strlit("6");
        reveal_strlit("7");
        reveal_strlit("8");
        reveal_strlit("9");
    }
    let s = if d == 0 {
        "0"
    } else if d == 1 {
        "1"
    } else if d == 2 {
        "2"
    } else if d == 3 {
        "3"
    } else if d == 4 {
        "4"
    } else if d == 5 {
        "5"
    } else if d == 6 {
        "6"
    } else if d == 7 {
        "7"
    } else if d == 8 {
        "8"
    } else {
        "9"
    };
    proof {
        assert(s@ =~= seq![digit_char(d as int)]);
    }
    s
}

/// Render a non-negative 32-bit value in decimal.
pub fn u32_dec(n: u32) -> (s: String)
    ensures
        s@ == dec_str(n as int),
    decreases n,
{
    if n < 10 {
        digit_to_str(n).to_owned()
    } else {
        let mut s = u32_dec(n / 10);
        s.append(digit_to_str(n % 10));
        proof {
            assert(s@ =~= dec_str(n as int));
        }
        s
    }
}

/// Render a signed 32-bit value in decimal.
pub fn format_i32(k: i32) -> (s: String)
    ensures
        s@ == int_str(k),
{
    if k >= 0 {
        u32_dec(k as u32)
    } else {
        let wide: i64 = -(k as i64);
        let mag: u32 = wide as u32;
        let mut s: String = "-".to_owned();
        s.append(u32_dec(mag).as_str());
        proof {
            reveal_strlit("-");
            assert(s@ =~= int_str(k));
        }
        s
    }
}

/// Drop an unset or empty string; keep any other.
fn norm_exec<'x>(x: Option<&'x String>) -> (r: Option<&'x String>)
    ensures
        opt_string_view(r) == norm_text(opt_string_view(x)),
{
    match x {
        Some(s) => if s.as_str().is_empty() {
            None
        } else {
            Some(s)
        },
        None => None,
    }
}

/// Whether two strings hold the same characters.
fn string_eq(a: &String, b: &String) -> (r: bool)
    ensures
        r == (a@ == b@),
{
    a.eq(b)
}

/// Append `base | Object #id` to a fresh string.
fn push_object_tail(base: &String, id: i32) -> (t: String)
    ensures
        t@ == base@ + " | Object #"@ + int_str(id),
{
    let mut t = base.clone();
    t.append(" | Object #");
    t.append(format_i32(id).as_str());
    proof {
        assert(t@ =~= base@ + " | Object #"@ + int_str(id));
    }
    t
}

/// Format the object title exactly as [`title_spec`] states: equal or
/// single inputs collapse to `{text} | Object #{id}`, distinct pairs give
/// `{display} ({name}) | Object #{id}`, and absent inputs leave
/// `Object #{id}` alone.
pub fn format_title(name: Option<&String>, display: Option<&String>, id: i32) -> (t: String)
    ensures
        t@ == title_spec(opt_string_view(name), opt_string_view(display), id),
{
    let name = norm_exec(name);
    let display = norm_exec(display);
    match (name, display) {
        (Some(n), Some(d)) => {
            if !string_eq(d, n) {
                let mut t = d.clone();
                t.append(" (");
                t.append(n.as_str());
                t.append(") | Object #");
                t.append(format_i32(id).as_str());
                proof {
                    assert(t@ =~= d@ + " ("@ + n@ + ") | Object #"@ + int_str(id));
                }
                t
            } else {
                push_object_tail(n, id)
            }
        },
        (Some(n), None) => push_object_tail(n, id),
        (None, Some(d)) => push_object_tail(d, id),
        (None, None) => {
            let mut t = "Object #".to_owned();
            t.append(format_i32(id).as_str());
            proof {
                assert(t@ =~= "Object #"@ + int_str(id));
            }
            t
        },
    }
}

/// Format the object description exactly as [`description_spec`] states:
/// equal or single inputs collapse to one copy, distinct pairs give
/// `{description} ({notes})`, absent inputs give the empty string.
pub fn format_description(description: Option<&String>, notes: Option<&String>) -> (t: String)
    ensures
        t@ == description_spec(opt_string_view(description), opt_string_view(notes)),
{
    let description = norm_exec(description);
    let notes = norm_exec(notes);
    match (description, notes) {
        (Some(d), Some(n)) => {
            if !string_eq(d, n) {
                let mut t = d.clone();
                t.append(" (");
                t.append(n.as_str());
                t.append(")");
                proof {
                    assert(t@ =~= d@ + " ("@ + n@ + ")"@);
                }
                t
            } else {
                d.clone()
            }
        },
        (Some(d), None) => d.clone(),
        (None, Some(n)) => n.clone(),
        (None, None) => {
            let t = String::new();
            proof {
                assert(t@ =~= Seq::<char>::empty());
            }
            t
        },
    }
}

} // verus!
