//! Decoding the JSON wire form of an event: a schema-directed parser over
//! characters, with a specification-level model that the executable parser is
//! proved to follow exactly.
//!
//! The grammar accepted here is JSON restricted to what the event schema
//! needs: objects with string keys, string, integer, boolean and nested
//! object values for the known fields, and arbitrary JSON values for unknown
//! fields, which are skipped. Numbers for the known integer fields must be
//! plain integers that fit a signed 64-bit value; strings understand the
//! standard escapes including `\uXXXX` for scalar values.

use vstd::prelude::*;
use vstd::string::StringExecFns;
use crate::event::Event;
use crate::event::EventData;
use crate::event::EventDataView;
use crate::event::EventView;
use crate::num::digit_val;
use crate::num::hex_val;
use crate::num::is_digit;
use crate::num::is_hex;
use crate::num::lemma_parse_digits_ge;
use crate::num::parse_digits_from;
use crate::text::chars_to_string;
use crate::text::str_to_chars;
use crate::text::vec_eq_str;

verus! {

// ---------------------------------------------------------------- whitespace

/// The JSON whitespace characters.
pub open spec fn is_json_ws(c: char) -> bool {
    c == ' ' || c == '\t' || c == '\n' || c == '\r'
}

/// First position at or after `i` holding no whitespace.
pub open spec fn spec_skip_ws(s: Seq<char>, i: int) -> int
    decreases s.len() - i,
{
    if 0 <= i < s.len() && is_json_ws(s[i]) {
        spec_skip_ws(s, i + 1)
    } else {
        i
    }
}

fn skip_ws(v: &Vec<char>, i: usize) -> (r: usize)
    requires
        i <= v@.len(),
    ensures
        r as int == spec_skip_ws(v@, i as int),
        i <= r <= v@.len(),
{
    let mut k = i;
    while k < v.len() && (v[k] == ' ' || v[k] == '\t' || v[k] == '\n' || v[k] == '\r')
        invariant
            i <= k <= v@.len(),
            spec_skip_ws(v@, i as int) == spec_skip_ws(v@, k as int),
        decreases v@.len() - k,
    {
        k = k + 1;
    }
    k
}

// ------------------------------------------------------------------- strings

/// A `u32` value that names a Unicode scalar: below the surrogate range, or
/// past it and at most the greatest code point.
pub open spec fn scalar_ok(u: u32) -> bool {
    u < 0xD800 || (0xE000 <= u && u <= 0x10FFFF)
}

/// Relies on `char::from_u32`: yields the character with the given code
/// exactly on Unicode scalar values (not a surrogate, not above the maximum).
#[verifier::external_body]
fn char_from_u32(u: u32) -> (r: Option<char>)
    ensures
        r is Some <==> scalar_ok(u),
        r matches Some(c) ==> c as u32 == u,
{
    char::from_u32(u)
}

/// One escape sequence, entered at the character right after the backslash;
/// yields the escaped character and the position after the sequence.
pub open spec fn spec_parse_escape(s: Seq<char>, i: int) -> Option<(char, int)> {
    if 0 <= i < s.len() {
        let c = s[i];
        if c == '"' {
            Some(('"', i + 1))
        } else if c == '\\' {
            Some(('\\', i + 1))
        } else if c == '/' {
            Some(('/', i + 1))
        } else if c == 'b' {
            Some(('\u{8}', i + 1))
        } else if c == 'f' {
            Some(('\u{c}', i + 1))
        } else if c == 'n' {
            Some(('\n', i + 1))
        } else if c == 'r' {
            Some(('\r', i + 1))
        } else if c == 't' {
            Some(('\t', i + 1))
        } else if c == 'u' {
            if i + 5 <= s.len() && is_hex(s[i + 1]) && is_hex(s[i + 2]) && is_hex(s[i + 3])
                && is_hex(s[i + 4]) {
                let u = (hex_val(s[i + 1]) * 4096 + hex_val(s[i + 2]) * 256 + hex_val(s[i + 3]) * 16
                    + hex_val(s[i + 4])) as u32;
                if scalar_ok(u) {
                    Some(((u as char), i + 5))
                } else {
                    None
                }
            } else {
                None
            }
        } else {
            None
        }
    } else {
        None
    }
}

fn hex_val_exec(c: char) -> (r: Option<u8>)
    ensures
        r is Some <==> is_hex(c),
        r matches Some(d) ==> d as int == hex_val(c) && d < 16,
{
    let cv = c as u32;
    if 48 <= cv && cv <= 57 {
        Some((cv - 48) as u8)
    } else if 97 <= cv && cv <= 102 {
        Some((cv - 87) as u8)
    } else if 65 <= cv && cv <= 70 {
        Some((cv - 55) as u8)
    } else {
        None
    }
}

fn parse_escape_x(v: &Vec<char>, i: usize) -> (r: Option<(char, usize)>)
    requires
        i <= v@.len(),
    ensures
        match spec_parse_escape(v@, i as int) {
            Some(p) => r matches Some(q) && q.0 == p.0 && q.1 as int == p.1 && q.1 <= v@.len(),
            None => r is None,
        },
{
    if i >= v.len() {
        return None;
    }
    let c = v[i];
    if c == '"' {
        Some(('"', i + 1))
    } else if c == '\\' {
        Some(('\\', i + 1))
    } else if c == '/' {
        Some(('/', i + 1))
    } else if c == 'b' {
        Some(('\u{8}', i + 1))
    } else if c == 'f' {
        Some(('\u{c}', i + 1))
    } else if c == 'n' {
        Some(('\n', i + 1))
    } else if c == 'r' {
        Some(('\r', i + 1))
    } else if c == 't' {
        Some(('\t', i + 1))
    } else if c == 'u' {
        if v.len() < 5 || i > v.len() - 5 {
            return None;
        }
        let h1 = hex_val_exec(v[i + 1]);
        let h2 = hex_val_exec(v[i + 2]);
        let h3 = hex_val_exec(v[i + 3]);
        let h4 = hex_val_exec(v[i + 4]);
        match (h1, h2, h3, h4) {
            (Some(a), Some(b), Some(cc), Some(d)) => {
                let u: u32 = (a as u32) * 4096 + (b as u32) * 256 + (cc as u32) * 16 + (d as u32);
                match char_from_u32(u) {
                    Some(ch) => {
                        proof {
                            vstd::utf8::char_u32_cast(ch, u);
                        }
                        Some((ch, i + 5))
                    },
                    None => None,
                }
            },
            _ => None,
        }
    } else {
        None
    }
}

/// The rest of a string literal, entered right after the opening quote or
/// after a consumed character, accumulating the content read so far.
pub open spec fn spec_parse_string_rest(s: Seq<char>, i: int, acc: Seq<char>) -> Option<
    (Seq<char>, int),
>
    decreases s.len() - i,
{
    if 0 <= i < s.len() {
        let c = s[i];
        if c == '"' {
            Some((acc, i + 1))
        } else if c == '\\' {
            match spec_parse_escape(s, i + 1) {
                Some((e, j)) => {
                    if i < j {
                        spec_parse_string_rest(s, j, acc.push(e))
                    } else {
                        None
                    }
                },
                None => None,
            }
        } else if c as u32 >= 32 {
            spec_parse_string_rest(s, i + 1, acc.push(c))
        } else {
            None
        }
    } else {
        None
    }
}

/// A string literal at `i`: content and the position after the closing quote.
pub open spec fn spec_parse_string(s: Seq<char>, i: int) -> Option<(Seq<char>, int)> {
    if 0 <= i < s.len() && s[i] == '"' {
        spec_parse_string_rest(s, i + 1, Seq::empty())
    } else {
        None
    }
}

#[verifier::loop_isolation(false)]
fn parse_string_x(v: &Vec<char>, i: usize) -> (r: Option<(Vec<char>, usize)>)
    requires
        i <= v@.len(),
    ensures
        match spec_parse_string(v@, i as int) {
            Some(p) => r matches Some(q) && q.0@ == p.0 && q.1 as int == p.1 && q.1 <= v@.len(),
            None => r is None,
        },
{
    if i >= v.len() || v[i] != '"' {
        return None;
    }
    let mut acc: Vec<char> = Vec::new();
    let mut k = i + 1;
    loop
        invariant
            i + 1 <= k <= v@.len(),
            spec_parse_string(v@, i as int) == spec_parse_string_rest(v@, k as int, acc@),
        decreases v@.len() - k,
    {
        if k >= v.len() {
            return None;
        }
        let c = v[k];
        if c == '"' {
            return Some((acc, k + 1));
        } else if c == '\\' {
            match parse_escape_x(v, k + 1) {
                Some((e, j)) => {
                    if !(k < j) {
                        return None;
                    }
                    acc.push(e);
                    k = j;
                },
                None => {
                    return None;
                },
            }
        } else if c as u32 >= 32 {
            acc.push(c);
            k = k + 1;
        } else {
            return None;
        }
    }
}

// ------------------------------------------------------------------- numbers

/// An unsigned JSON integer at `i`: either a lone `0`, or digits without a
/// leading zero, folded to their value.
pub open spec fn spec_parse_nat(s: Seq<char>, i: int) -> Option<(int, int)> {
    if 0 <= i < s.len() && s[i] == '0' {
        if i + 1 < s.len() && is_digit(s[i + 1]) {
            None
        } else {
            Some((0, i + 1))
        }
    } else if 0 <= i < s.len() && is_digit(s[i]) {
        Some(parse_digits_from(s, i, 0))
    } else {
        None
    }
}

/// A JSON integer at `i`, with an optional leading minus sign.
pub open spec fn spec_parse_number(s: Seq<char>, i: int) -> Option<(int, int)> {
    if 0 <= i < s.len() && s[i] == '-' {
        match spec_parse_nat(s, i + 1) {
            Some((val, j)) => Some((-val, j)),
            None => None,
        }
    } else {
        spec_parse_nat(s, i)
    }
}

/// Parse a JSON integer and narrow it to `i64`; values outside that range
/// are rejected, as the event schema stores them in a signed 64-bit field.
#[verifier::loop_isolation(false)]
fn parse_number_x(v: &Vec<char>, i: usize) -> (r: Option<(i64, usize)>)
    requires
        i <= v@.len(),
    ensures
        match spec_parse_number(v@, i as int) {
            Some(p) => {
                if i64::MIN <= p.0 <= i64::MAX {
                    r matches Some(q) && q.0 as int == p.0 && q.1 as int == p.1 && q.1 <= v@.len()
                } else {
                    r is None
                }
            },
            None => r is None,
        },
{
    let neg = i < v.len() && v[i] == '-';
    let start = if neg {
        i + 1
    } else {
        i
    };
    if start >= v.len() {
        return None;
    }
    let c0 = v[start];
    if c0 == '0' {
        if start + 1 < v.len() && (v[start + 1] as u32) >= 48 && (v[start + 1] as u32) <= 57 {
            return None;
        }
        return Some((0, start + 1));
    }
    if (c0 as u32) < 48 || (c0 as u32) > 57 {
        return None;
    }
    let mut acc: u128 = 0;
    let mut p = start;
    while p < v.len() && (v[p] as u32) >= 48 && (v[p] as u32) <= 57
        invariant
            start <= p <= v@.len(),
            acc <= 0x8000_0000_0000_0000u128,
            parse_digits_from(v@, start as int, 0) == parse_digits_from(v@, p as int, acc as int),
        decreases v@.len() - p,
    {
        let d: u128 = ((v[p] as u32) - 48) as u128;
        let acc2: u128 = acc * 10 + d;
        assert(parse_digits_from(v@, p as int, acc as int) == parse_digits_from(
            v@,
            p as int + 1,
            acc as int * 10 + digit_val(v@[p as int]),
        ));
        if acc2 > 0x8000_0000_0000_0000u128 {
            proof {
                lemma_parse_digits_ge(v@, p as int + 1, acc2 as int);
            }
            return None;
        }
        acc = acc2;
        p = p + 1;
    }
    assert(parse_digits_from(v@, p as int, acc as int) == (acc as int, p as int));
    if neg {
        if acc == 0x8000_0000_0000_0000u128 {
            return Some((i64::MIN, p));
        }
        return Some((-(acc as i64), p));
    } else {
        if acc >= 0x8000_0000_0000_0000u128 {
            return None;
        }
        return Some((acc as i64, p));
    }
}

// ------------------------------------------------------------------ booleans

/// A JSON boolean literal at `i`.
pub open spec fn spec_parse_bool(s: Seq<char>, i: int) -> Option<(bool, int)> {
    if 0 <= i && i + 4 <= s.len() && s[i] == 't' && s[i + 1] == 'r' && s[i + 2] == 'u' && s[i + 3]
        == 'e' {
        Some((true, i + 4))
    } else if 0 <= i && i + 5 <= s.len() && s[i] == 'f' && s[i + 1] == 'a' && s[i + 2] == 'l' && s[i
        + 3] == 's' && s[i + 4] == 'e' {
        Some((false, i + 5))
    } else {
        None
    }
}

fn parse_bool_x(v: &Vec<char>, i: usize) -> (r: Option<(bool, usize)>)
    requires
        i <= v@.len(),
    ensures
        match spec_parse_bool(v@, i as int) {
            Some(p) => r matches Some(q) && q.0 == p.0 && q.1 as int == p.1 && q.1 <= v@.len(),
            None => r is None,
        },
{
    if v.len() >= 4 && i <= v.len() - 4 && v[i] == 't' && v[i + 1] == 'r' && v[i + 2] == 'u' && v[i
        + 3] == 'e' {
        Some((true, i + 4))
    } else if v.len() >= 5 && i <= v.len() - 5 && v[i] == 'f' && v[i + 1] == 'a' && v[i + 2] == 'l'
        && v[i + 3] == 's' && v[i + 4] == 'e' {
        Some((false, i + 5))
    } else {
        None
    }
}

// ------------------------------------------------- skipping unknown values

/// Skip one JSON value at `i`, yielding the position after it.
pub open spec fn spec_skip_value(s: Seq<char>, i: int) -> Option<int>
    decreases s.len() - i, 2int,
{
    if 0 <= i < s.len() {
        let c = s[i];
        if c == '"' {
            match spec_parse_string(s, i) {
                Some((_content, j)) => Some(j),
                None => None,
            }
        } else if c == '-' || is_digit(c) {
            match spec_parse_number(s, i) {
                Some((_val, j)) => Some(j),
                None => None,
            }
        } else if c == 't' || c == 'f' {
            match spec_parse_bool(s, i) {
                Some((_b, j)) => Some(j),
                None => None,
            }
        } else if c == 'n' {
            if i + 4 <= s.len() && s[i + 1] == 'u' && s[i + 2] == 'l' && s[i + 3] == 'l' {
                Some(i + 4)
            } else {
                None
            }
        } else if c == '{' {
            let j = spec_skip_ws(s, i + 1);
            if j < s.len() && s[j] == '}' {
                Some(j + 1)
            } else if i < j && j <= s.len() {
                spec_skip_members(s, j)
            } else {
                None
            }
        } else if c == '[' {
            let j = spec_skip_ws(s, i + 1);
            if j < s.len() && s[j] == ']' {
                Some(j + 1)
            } else if i < j && j <= s.len() {
                spec_skip_elems(s, j)
            } else {
                None
            }
        } else {
            None
        }
    } else {
        None
    }
}

/// Skip the members of an object, entered at a key position.
pub open spec fn spec_skip_members(s: Seq<char>, i: int) -> Option<int>
    decreases s.len() - i, 1int,
{
    match spec_parse_string(s, i) {
        Some((_key, j)) => {
            let k = spec_skip_ws(s, j);
            if k < s.len() && s[k] == ':' {
                let m = spec_skip_ws(s, k + 1);
                if i < m && m <= s.len() {
                    match spec_skip_value(s, m) {
                        Some(n) => {
                            let w = spec_skip_ws(s, n);
                            if w < s.len() && s[w] == '}' {
                                Some(w + 1)
                            } else if w < s.len() && s[w] == ',' {
                                let x = spec_skip_ws(s, w + 1);
                                if i < x && x <= s.len() {
                                    spec_skip_members(s, x)
                                } else {
                                    None
                                }
                            } else {
                                None
                            }
                        },
                        None => None,
                    }
                } else {
                    None
                }
            } else {
                None
            }
        },
        None => None,
    }
}

/// Skip the elements of an array, entered at a value position.
pub open spec fn spec_skip_elems(s: Seq<char>, i: int) -> Option<int>
    decreases s.len() - i, 3int,
{
    match spec_skip_value(s, i) {
        Some(n) => {
            let w = spec_skip_ws(s, n);
            if w < s.len() && s[w] == ']' {
                Some(w + 1)
            } else if w < s.len() && s[w] == ',' {
                let x = spec_skip_ws(s, w + 1);
                if i < x && x <= s.len() {
                    spec_skip_elems(s, x)
                } else {
                    None
                }
            } else {
                None
            }
        },
        None => None,
    }
}

fn skip_value_x(v: &Vec<char>, i: usize) -> (r: Option<usize>)
    requires
        i <= v@.len(),
    ensures
        match spec_skip_value(v@, i as int) {
            Some(j) => r matches Some(u) && u as int == j && u <= v@.len(),
            None => r is None,
        },
    decreases v@.len() - i, 2int,
{
    if i >= v.len() {
        return None;
    }
    let c = v[i];
    if c == '"' {
        match parse_string_x(v, i) {
            Some((_content, j)) => Some(j),
            None => None,
        }
    } else if c == '-' || ((c as u32) >= 48 && (c as u32) <= 57) {
        match skip_number_x(v, i) {
            Some(j) => Some(j),
            None => None,
        }
    } else if c == 't' || c == 'f' {
        match parse_bool_x(v, i) {
            Some((_b, j)) => Some(j),
            None => None,
        }
    } else if c == 'n' {
        if v.len() >= 4 && i <= v.len() - 4 && v[i + 1] == 'u' && v[i + 2] == 'l' && v[i + 3] == 'l'
        {
            Some(i + 4)
        } else {
            None
        }
    } else if c == '{' {
        let j = skip_ws(v, i + 1);
        if j < v.len() && v[j] == '}' {
            Some(j + 1)
        } else if i < j {
            skip_members_x(v, j)
        } else {
            None
        }
    } else if c == '[' {
        let j = skip_ws(v, i + 1);
        if j < v.len() && v[j] == ']' {
            Some(j + 1)
        } else if i < j {
            skip_elems_x(v, j)
        } else {
            None
        }
    } else {
        None
    }
}

/// Find the end of a JSON integer without narrowing its value, so that
/// out-of-range numbers in unknown fields are still skipped.
#[verifier::loop_isolation(false)]
fn skip_number_x(v: &Vec<char>, i: usize) -> (r: Option<usize>)
    requires
        i <= v@.len(),
    ensures
        match spec_parse_number(v@, i as int) {
            Some(p) => r matches Some(u) && u as int == p.1 && u <= v@.len(),
            None => r is None,
        },
{
    let neg = i < v.len() && v[i] == '-';
    let start = if neg {
        i + 1
    } else {
        i
    };
    if start >= v.len() {
        return None;
    }
    let c0 = v[start];
    if c0 == '0' {
        if start + 1 < v.len() && (v[start + 1] as u32) >= 48 && (v[start + 1] as u32) <= 57 {
            return None;
        }
        return Some(start + 1);
    }
    if (c0 as u32) < 48 || (c0 as u32) > 57 {
        return None;
    }
    let mut p = start;
    while p < v.len() && (v[p] as u32) >= 48 && (v[p] as u32) <= 57
        invariant
            start <= p <= v@.len(),
            parse_digits_from(v@, start as int, 0).1 == parse_digits_from(v@, p as int, 0).1,
        decreases v@.len() - p,
    {
        assert(parse_digits_from(v@, p as int, 0).1 == parse_digits_from(v@, p as int + 1, 0).1)
            by {
            lemma_skip_digits_pos(v@, p as int);
        }
        p = p + 1;
    }
    assert(parse_digits_from(v@, p as int, 0).1 == p as int);
    Some(p)
}

/// The end position of a digit run does not depend on the accumulator.
proof fn lemma_skip_digits_pos(s: Seq<char>, i: int)
    requires
        0 <= i < s.len(),
        is_digit(s[i]),
    ensures
        forall|a: int, b: int|
            #[trigger] parse_digits_from(s, i, a).1 == #[trigger] parse_digits_from(s, i + 1, b).1,
    decreases s.len() - i,
{
    assert forall|a: int, b: int|
        #[trigger] parse_digits_from(s, i, a).1 == #[trigger] parse_digits_from(
            s,
            i + 1,
            b,
        ).1 by {
        lemma_digits_pos_acc_free(s, i + 1, a * 10 + digit_val(s[i]), b);
    }
}

/// Two digit folds from the same position end at the same place.
proof fn lemma_digits_pos_acc_free(s: Seq<char>, i: int, a: int, b: int)
    ensures
        parse_digits_from(s, i, a).1 == parse_digits_from(s, i, b).1,
    decreases s.len() - i,
{
    if 0 <= i < s.len() && is_digit(s[i]) {
        lemma_digits_pos_acc_free(s, i + 1, a * 10 + digit_val(s[i]), b * 10 + digit_val(s[i]));
    }
}

fn skip_members_x(v: &Vec<char>, i: usize) -> (r: Option<usize>)
    requires
        i <= v@.len(),
    ensures
        match spec_skip_members(v@, i as int) {
            Some(j) => r matches Some(u) && u as int == j && u <= v@.len(),
            None => r is None,
        },
    decreases v@.len() - i, 1int,
{
    match parse_string_x(v, i) {
        Some((_key, j)) => {
            let k = skip_ws(v, j);
            if k < v.len() && v[k] == ':' {
                let m = skip_ws(v, k + 1);
                if i < m {
                    match skip_value_x(v, m) {
                        Some(n) => {
                            let w = skip_ws(v, n);
                            if w < v.len() && v[w] == '}' {
                                Some(w + 1)
                            } else if w < v.len() && v[w] == ',' {
                                let x = skip_ws(v, w + 1);
                                if i < x {
                                    skip_members_x(v, x)
                                } else {
                                    None
                                }
                            } else {
                                None
                            }
                        },
                        None => None,
                    }
                } else {
                    None
                }
            } else {
                None
            }
        },
        None => None,
    }
}

fn skip_elems_x(v: &Vec<char>, i: usize) -> (r: Option<usize>)
    requires
        i <= v@.len(),
    ensures
        match spec_skip_elems(v@, i as int) {
            Some(j) => r matches Some(u) && u as int == j && u <= v@.len(),
            None => r is None,
        },
    decreases v@.len() - i, 3int,
{
    match skip_value_x(v, i) {
        Some(n) => {
            let w = skip_ws(v, n);
            if w < v.len() && v[w] == ']' {
                Some(w + 1)
            } else if w < v.len() && v[w] == ',' {
                let x = skip_ws(v, w + 1);
                if i < x {
                    skip_elems_x(v, x)
                } else {
                    None
                }
            } else {
                None
            }
        },
        None => None,
    }
}

// ------------------------------------------------ the event object schema

/// The fields of the nested payload seen so far while reading its object.
pub struct PartialData {
    pub room_id: Option<int>,
    pub short_id: Option<int>,
    pub name: Option<Seq<char>>,
    pub title: Option<Seq<char>>,
    pub area_name_parent: Option<Seq<char>>,
    pub area_name_child: Option<Seq<char>>,
    pub recording: Option<bool>,
    pub streaming: Option<bool>,
    pub danmaku_connected: Option<bool>,
}

pub open spec fn empty_partial_data() -> PartialData {
    PartialData {
        room_id: None,
        short_id: None,
        name: None,
        title: None,
        area_name_parent: None,
        area_name_child: None,
        recording: None,
        streaming: None,
        danmaku_connected: None,
    }
}

/// The payload once every required field has been seen.
pub open spec fn finish_data(a: PartialData) -> Option<EventDataView> {
    match (a.room_id, a.short_id, a.name, a.title, a.area_name_parent, a.area_name_child,
    a.recording, a.streaming, a.danmaku_connected) {
        (
            Some(room_id),
            Some(short_id),
            Some(name),
            Some(title),
            Some(area_name_parent),
            Some(area_name_child),
            Some(recording),
            Some(streaming),
            Some(danmaku_connected),
        ) => Some(
            EventDataView {
                room_id,
                short_id,
                name,
                title,
                area_name_parent,
                area_name_child,
                recording,
                streaming,
                danmaku_connected,
            },
        ),
        _ => None,
    }
}

/// One known or unknown member value of the payload object, starting at the
/// value position `m`: how it extends the fields seen so far. A field seen
/// twice, a value of the wrong shape, or an integer outside the signed
/// 64-bit range is a decode failure.
pub open spec fn spec_data_field(s: Seq<char>, m: int, key: Seq<char>, a: PartialData) -> Option<
    (PartialData, int),
> {
    if key == "RoomId"@ {
        if a.room_id is Some {
            None
        } else {
            match spec_parse_number(s, m) {
                Some((val, n)) => {
                    if i64::MIN <= val <= i64::MAX {
                        Some((PartialData { room_id: Some(val), ..a }, n))
                    } else {
                        None
                    }
                },
                None => None,
            }
        }
    } else if key == "ShortId"@ {
        if a.short_id is Some {
            None
        } else {
            match spec_parse_number(s, m) {
                Some((val, n)) => {
                    if i64::MIN <= val <= i64::MAX {
                        Some((PartialData { short_id: Some(val), ..a }, n))
                    } else {
                        None
                    }
                },
                None => None,
            }
        }
    } else if key == "Name"@ {
        if a.name is Some {
            None
        } else {
            match spec_parse_string(s, m) {
                Some((t, n)) => Some((PartialData { name: Some(t), ..a }, n)),
                None => None,
            }
        }
    } else if key == "Title"@ {
        if a.title is Some {
            None
        } else {
            match spec_parse_string(s, m) {
                Some((t, n)) => Some((PartialData { title: Some(t), ..a }, n)),
                None => None,
            }
        }
    } else if key == "AreaNameParent"@ {
        if a.area_name_parent is Some {
            None
        } else {
            match spec_parse_string(s, m) {
                Some((t, n)) => Some((PartialData { area_name_parent: Some(t), ..a }, n)),
                None => None,
            }
        }
    } else if key == "AreaNameChild"@ {
        if a.area_name_child is Some {
            None
        } else {
            match spec_parse_string(s, m) {
                Some((t, n)) => Some((PartialData { area_name_child: Some(t), ..a }, n)),
                None => None,
            }
        }
    } else if key == "Recording"@ {
        if a.recording is Some {
            None
        } else {
            match spec_parse_bool(s, m) {
                Some((b, n)) => Some((PartialData { recording: Some(b), ..a }, n)),
                None => None,
            }
        }
    } else if key == "Streaming"@ {
        if a.streaming is Some {
            None
        } else {
            match spec_parse_bool(s, m) {
                Some((b, n)) => Some((PartialData { streaming: Some(b), ..a }, n)),
                None => None,
            }
        }
    } else if key == "DanmakuConnected"@ {
        if a.danmaku_connected is Some {
            None
        } else {
            match spec_parse_bool(s, m) {
                Some((b, n)) => Some((PartialData { danmaku_connected: Some(b), ..a }, n)),
                None => None,
            }
        }
    } else {
        match spec_skip_value(s, m) {
            Some(n) => Some((a, n)),
            None => None,
        }
    }
}

/// The members of the payload object, entered at a key position.
pub open spec fn spec_data_members(s: Seq<char>, i: int, a: PartialData) -> Option<
    (EventDataView, int),
>
    decreases s.len() - i,
{
    match spec_parse_string(s, i) {
        Some((key, j)) => {
            let k = spec_skip_ws(s, j);
            if k < s.len() && s[k] == ':' {
                let m = spec_skip_ws(s, k + 1);
                match spec_data_field(s, m, key, a) {
                    Some((a2, n)) => {
                        let w = spec_skip_ws(s, n);
                        if w < s.len() && s[w] == '}' {
                            match finish_data(a2) {
                                Some(d) => Some((d, w + 1)),
                                None => None,
                            }
                        } else if w < s.len() && s[w] == ',' {
                            let x = spec_skip_ws(s, w + 1);
                            if i < x && x <= s.len() {
                                spec_data_members(s, x, a2)
                            } else {
                                None
                            }
                        } else {
                            None
                        }
                    },
                    None => None,
                }
            } else {
                None
            }
        },
        None => None,
    }
}

/// The nested payload object at `i`.
pub open spec fn spec_parse_data_obj(s: Seq<char>, i: int) -> Option<(EventDataView, int)> {
    if 0 <= i < s.len() && s[i] == '{' {
        spec_data_members(s, spec_skip_ws(s, i + 1), empty_partial_data())
    } else {
        None
    }
}

spec fn opt_i64_view(o: Option<i64>) -> Option<int> {
    match o {
        Some(x) => Some(x as int),
        None => None,
    }
}

spec fn opt_chars_view(o: Option<Vec<char>>) -> Option<Seq<char>> {
    match o {
        Some(w) => Some(w@),
        None => None,
    }
}

spec fn pd_of(
    room_id: Option<i64>,
    short_id: Option<i64>,
    name: Option<Vec<char>>,
    title: Option<Vec<char>>,
    area_name_parent: Option<Vec<char>>,
    area_name_child: Option<Vec<char>>,
    recording: Option<bool>,
    streaming: Option<bool>,
    danmaku_connected: Option<bool>,
) -> PartialData {
    PartialData {
        room_id: opt_i64_view(room_id),
        short_id: opt_i64_view(short_id),
        name: opt_chars_view(name),
        title: opt_chars_view(title),
        area_name_parent: opt_chars_view(area_name_parent),
        area_name_child: opt_chars_view(area_name_child),
        recording,
        streaming,
        danmaku_connected,
    }
}

#[verifier::loop_isolation(false)]
#[verifier::rlimit(100)]
fn parse_data_members_x(v: &Vec<char>, start: usize) -> (r: Option<(EventData, usize)>)
    requires
        start <= v@.len(),
    ensures
        match spec_data_members(v@, start as int, empty_partial_data()) {
            Some(p) => r matches Some(q) && q.0@ == p.0 && q.1 as int == p.1 && q.1 <= v@.len(),
            None => r is None,
        },
{
    let mut cur = start;
    let mut f_room_id: Option<i64> = None;
    let mut f_short_id: Option<i64> = None;
    let mut f_name: Option<Vec<char>> = None;
    let mut f_title: Option<Vec<char>> = None;
    let mut f_anp: Option<Vec<char>> = None;
    let mut f_anc: Option<Vec<char>> = None;
    let mut f_rec: Option<bool> = None;
    let mut f_str: Option<bool> = None;
    let mut f_dc: Option<bool> = None;
    loop
        invariant
            start <= cur <= v@.len(),
            spec_data_members(v@, start as int, empty_partial_data()) == spec_data_members(
                v@,
                cur as int,
                pd_of(f_room_id, f_short_id, f_name, f_title, f_anp, f_anc, f_rec, f_str, f_dc),
            ),
        decreases v@.len() - cur,
    {
        let ghost cur0 = cur as int;
        let ghost acc0 = pd_of(
            f_room_id,
            f_short_id,
            f_name,
            f_title,
            f_anp,
            f_anc,
            f_rec,
            f_str,
            f_dc,
        );
        let (key, j) = match parse_string_x(v, cur) {
            Some(p) => p,
            None => {
                return None;
            },
        };
        let k = skip_ws(v, j);
        if !(k < v.len() && v[k] == ':') {
            return None;
        }
        let m = skip_ws(v, k + 1);
        let n: usize;
        if vec_eq_str(&key, "RoomId") {
            if f_room_id.is_some() {
                return None;
            }
            match parse_number_x(v, m) {
                Some(p) => {
                    f_room_id = Some(p.0);
                    n = p.1;
                },
                None => {
                    return None;
                },
            }
        } else if vec_eq_str(&key, "ShortId") {
            if f_short_id.is_some() {
                return None;
            }
            match parse_number_x(v, m) {
                Some(p) => {
                    f_short_id = Some(p.0);
                    n = p.1;
                },
                None => {
                    return None;
                },
            }
        } else if vec_eq_str(&key, "Name") {
            if f_name.is_some() {
                return None;
            }
            match parse_string_x(v, m) {
                Some(p) => {
                    f_name = Some(p.0);
                    n = p.1;
                },
                None => {
                    return None;
                },
            }
        } else if vec_eq_str(&key, "Title") {
            if f_title.is_some() {
                return None;
            }
            match parse_string_x(v, m) {
                Some(p) => {
                    f_title = Some(p.0);
                    n = p.1;
                },
                None => {
                    return None;
                },
            }
        } else if vec_eq_str(&key, "AreaNameParent") {
            if f_anp.is_some() {
                return None;
            }
            match parse_string_x(v, m) {
                Some(p) => {
                    f_anp = Some(p.0);
                    n = p.1;
                },
                None => {
                    return None;
                },
            }
        } else if vec_eq_str(&key, "AreaNameChild") {
            if f_anc.is_some() {
                return None;
            }
            match parse_string_x(v, m) {
                Some(p) => {
                    f_anc = Some(p.0);
                    n = p.1;
                },
                None => {
                    return None;
                },
            }
        } else if vec_eq_str(&key, "Recording") {
            if f_rec.is_some() {
                return None;
            }
            match parse_bool_x(v, m) {
                Some(p) => {
                    f_rec = Some(p.0);
                    n = p.1;
                },
                None => {
                    return None;
                },
            }
        } else if vec_eq_str(&key, "Streaming") {
            if f_str.is_some() {
                return None;
            }
            match parse_bool_x(v, m) {
                Some(p) => {
                    f_str = Some(p.0);
                    n = p.1;
                },
                None => {
                    return None;
                },
            }
        } else if vec_eq_str(&key, "DanmakuConnected") {
            if f_dc.is_some() {
                return None;
            }
            match parse_bool_x(v, m) {
                Some(p) => {
                    f_dc = Some(p.0);
                    n = p.1;
                },
                None => {
                    return None;
                },
            }
        } else {
            match skip_value_x(v, m) {
                Some(p) => {
                    n = p;
                },
                None => {
                    return None;
                },
            }
        }
        assert(spec_data_field(v@, m as int, key@, acc0) == Some(
            (
                pd_of(f_room_id, f_short_id, f_name, f_title, f_anp, f_anc, f_rec, f_str, f_dc),
                n as int,
            ),
        ));
        let w = skip_ws(v, n);
        if w < v.len() && v[w] == '}' {
            match (f_room_id, f_short_id, f_name, f_title, f_anp, f_anc, f_rec, f_str, f_dc) {
                (
                    Some(room_id),
                    Some(short_id),
                    Some(name),
                    Some(title),
                    Some(anp),
                    Some(anc),
                    Some(rec),
                    Some(st),
                    Some(dc),
                ) => {
                    let data = EventData {
                        room_id,
                        short_id,
                        name: chars_to_string(&name),
                        title: chars_to_string(&title),
                        area_name_parent: chars_to_string(&anp),
                        area_name_child: chars_to_string(&anc),
                        recording: rec,
                        streaming: st,
                        danmaku_connected: dc,
                    };
                    return Some((data, w + 1));
                },
                _ => {
                    return None;
                },
            }
        } else if w < v.len() && v[w] == ',' {
            let x = skip_ws(v, w + 1);
            if !(cur < x) {
                return None;
            }
            cur = x;
        } else {
            return None;
        }
    }
}

fn parse_data_obj_x(v: &Vec<char>, i: usize) -> (r: Option<(EventData, usize)>)
    requires
        i <= v@.len(),
    ensures
        match spec_parse_data_obj(v@, i as int) {
            Some(p) => r matches Some(q) && q.0@ == p.0 && q.1 as int == p.1 && q.1 <= v@.len(),
            None => r is None,
        },
{
    if i >= v.len() || v[i] != '{' {
        return None;
    }
    let j = skip_ws(v, i + 1);
    parse_data_members_x(v, j)
}

/// The fields of the event seen so far while reading its object.
pub struct PartialEvent {
    pub event_type: Option<Seq<char>>,
    pub event_timestamp: Option<Seq<char>>,
    pub event_id: Option<Seq<char>>,
    pub event_data: Option<EventDataView>,
}

pub open spec fn empty_partial_event() -> PartialEvent {
    PartialEvent { event_type: None, event_timestamp: None, event_id: None, event_data: None }
}

/// The event once every required field has been seen.
pub open spec fn finish_event(a: PartialEvent) -> Option<EventView> {
    match (a.event_type, a.event_timestamp, a.event_id, a.event_data) {
        (Some(event_type), Some(event_timestamp), Some(event_id), Some(event_data)) => Some(
            EventView { event_type, event_timestamp, event_id, event_data },
        ),
        _ => None,
    }
}

/// One known or unknown member value of the event object.
pub open spec fn spec_event_field(s: Seq<char>, m: int, key: Seq<char>, a: PartialEvent) -> Option<
    (PartialEvent, int),
> {
    if key == "EventType"@ {
        if a.event_type is Some {
            None
        } else {
            match spec_parse_string(s, m) {
                Some((t, n)) => Some((PartialEvent { event_type: Some(t), ..a }, n)),
                None => None,
            }
        }
    } else if key == "EventTimestamp"@ {
        if a.event_timestamp is Some {
            None
        } else {
            match spec_parse_string(s, m) {
                Some((t, n)) => Some((PartialEvent { event_timestamp: Some(t), ..a }, n)),
                None => None,
            }
        }
    } else if key == "EventId"@ {
        if a.event_id is Some {
            None
        } else {
            match spec_parse_string(s, m) {
                Some((t, n)) => Some((PartialEvent { event_id: Some(t), ..a }, n)),
                None => None,
            }
        }
    } else if key == "EventData"@ {
        if a.event_data is Some {
            None
        } else {
            match spec_parse_data_obj(s, m) {
                Some((d, n)) => Some((PartialEvent { event_data: Some(d), ..a }, n)),
                None => None,
            }
        }
    } else {
        match spec_skip_value(s, m) {
            Some(n) => Some((a, n)),
            None => None,
        }
    }
}

/// The members of the event object, entered at a key position.
pub open spec fn spec_event_members(s: Seq<char>, i: int, a: PartialEvent) -> Option<
    (EventView, int),
>
    decreases s.len() - i,
{
    match spec_parse_string(s, i) {
        Some((key, j)) => {
            let k = spec_skip_ws(s, j);
            if k < s.len() && s[k] == ':' {
                let m = spec_skip_ws(s, k + 1);
                match spec_event_field(s, m, key, a) {
                    Some((a2, n)) => {
                        let w = spec_skip_ws(s, n);
                        if w < s.len() && s[w] == '}' {
                            match finish_event(a2) {
                                Some(e) => Some((e, w + 1)),
                                None => None,
                            }
                        } else if w < s.len() && s[w] == ',' {
                            let x = spec_skip_ws(s, w + 1);
                            if i < x && x <= s.len() {
                                spec_event_members(s, x, a2)
                            } else {
                                None
                            }
                        } else {
                            None
                        }
                    },
                    None => None,
                }
            } else {
                None
            }
        },
        None => None,
    }
}

/// The event object at `i`.
pub open spec fn spec_parse_event(s: Seq<char>, i: int) -> Option<(EventView, int)> {
    if 0 <= i < s.len() && s[i] == '{' {
        spec_event_members(s, spec_skip_ws(s, i + 1), empty_partial_event())
    } else {
        None
    }
}

spec fn pe_of(
    event_type: Option<Vec<char>>,
    event_timestamp: Option<Vec<char>>,
    event_id: Option<Vec<char>>,
    event_data: Option<EventData>,
) -> PartialEvent {
    PartialEvent {
        event_type: opt_chars_view(event_type),
        event_timestamp: opt_chars_view(event_timestamp),
        event_id: opt_chars_view(event_id),
        event_data: match event_data {
            Some(d) => Some(d@),
            None => None,
        },
    }
}

#[verifier::loop_isolation(false)]
#[verifier::rlimit(100)]
fn parse_event_members_x(v: &Vec<char>, start: usize) -> (r: Option<(Event, usize)>)
    requires
        start <= v@.len(),
    ensures
        match spec_event_members(v@, start as int, empty_partial_event()) {
            Some(p) => r matches Some(q) && q.0@ == p.0 && q.1 as int == p.1 && q.1 <= v@.len(),
            None => r is None,
        },
{
    let mut cur = start;
    let mut f_et: Option<Vec<char>> = None;
    let mut f_ets: Option<Vec<char>> = None;
    let mut f_eid: Option<Vec<char>> = None;
    let mut f_data: Option<EventData> = None;
    loop
        invariant
            start <= cur <= v@.len(),
            spec_event_members(v@, start as int, empty_partial_event()) == spec_event_members(
                v@,
                cur as int,
                pe_of(f_et, f_ets, f_eid, f_data),
            ),
        decreases v@.len() - cur,
    {
        let ghost acc0 = pe_of(f_et, f_ets, f_eid, f_data);
        let (key, j) = match parse_string_x(v, cur) {
            Some(p) => p,
            None => {
                return None;
            },
        };
        let k = skip_ws(v, j);
        if !(k < v.len() && v[k] == ':') {
            return None;
        }
        let m = skip_ws(v, k + 1);
        let n: usize;
        if vec_eq_str(&key, "EventType") {
            if f_et.is_some() {
                return None;
            }
            match parse_string_x(v, m) {
                Some(p) => {
                    f_et = Some(p.0);
                    n = p.1;
                },
                None => {
                    return None;
                },
            }
        } else if vec_eq_str(&key, "EventTimestamp") {
            if f_ets.is_some() {
                return None;
            }
            match parse_string_x(v, m) {
                Some(p) => {
                    f_ets = Some(p.0);
                    n = p.1;
                },
                None => {
                    return None;
                },
            }
        } else if vec_eq_str(&key, "EventId") {
            if f_eid.is_some() {
                return None;
            }
            match parse_string_x(v, m) {
                Some(p) => {
                    f_eid = Some(p.0);
                    n = p.1;
                },
                None => {
                    return None;
                },
            }
        } else if vec_eq_str(&key, "EventData") {
            if f_data.is_some() {
                return None;
            }
            match parse_data_obj_x(v, m) {
                Some(p) => {
                    f_data = Some(p.0);
                    n = p.1;
                },
                None => {
                    return None;
                },
            }
        } else {
            match skip_value_x(v, m) {
                Some(p) => {
                    n = p;
                },
                None => {
                    return None;
                },
            }
        }
        assert(spec_event_field(v@, m as int, key@, acc0) == Some(
            (pe_of(f_et, f_ets, f_eid, f_data), n as int),
        ));
        let w = skip_ws(v, n);
        if w < v.len() && v[w] == '}' {
            match (f_et, f_ets, f_eid, f_data) {
                (Some(et), Some(ets), Some(eid), Some(data)) => {
                    let event = Event {
                        event_type: chars_to_string(&et),
                        event_timestamp: chars_to_string(&ets),
                        event_id: chars_to_string(&eid),
                        event_data: data,
                    };
                    return Some((event, w + 1));
                },
                _ => {
                    return None;
                },
            }
        } else if w < v.len() && v[w] == ',' {
            let x = skip_ws(v, w + 1);
            if !(cur < x) {
                return None;
            }
            cur = x;
        } else {
            return None;
        }
    }
}

fn parse_event_x(v: &Vec<char>, i: usize) -> (r: Option<(Event, usize)>)
    requires
        i <= v@.len(),
    ensures
        match spec_parse_event(v@, i as int) {
            Some(p) => r matches Some(q) && q.0@ == p.0 && q.1 as int == p.1 && q.1 <= v@.len(),
            None => r is None,
        },
{
    if i >= v.len() || v[i] != '{' {
        return None;
    }
    let j = skip_ws(v, i + 1);
    parse_event_members_x(v, j)
}

// ------------------------------------------------------------- the decoder

/// The decoded event of a JSON text, when it decodes: the whole text must be
/// one event object, surrounding whitespace aside.
pub open spec fn spec_decode(s: Seq<char>) -> Option<EventView> {
    match spec_parse_event(s, spec_skip_ws(s, 0)) {
        Some((e, j)) => {
            if spec_skip_ws(s, j) == s.len() {
                Some(e)
            } else {
                None
            }
        },
        None => None,
    }
}

/// A decode failure, carrying a diagnostic message for the response body.
pub struct DecodeError {
    pub message: String,
}

fn decode_failure() -> (r: DecodeError)
    ensures
        r.message@.len() > 0,
{
    proof {
        reveal_strlit("the request body is not a well-formed event");
    }
    DecodeError { message: String::from_str("the request body is not a well-formed event") }
}

/// Decode the body text of a webhook request into an event. Succeeds exactly
/// on texts the event grammar accepts; every failure carries a non-empty
/// diagnostic.
pub fn decode_event(s: &str) -> (r: Result<Event, DecodeError>)
    ensures
        match spec_decode(s@) {
            Some(ev) => r matches Ok(e) && e@ == ev,
            None => r matches Err(d) && d.message@.len() > 0,
        },
{
    let v = str_to_chars(s);
    let i = skip_ws(&v, 0);
    match parse_event_x(&v, i) {
        Some((e, j)) => {
            let w = skip_ws(&v, j);
            if w == v.len() {
                Ok(e)
            } else {
                Err(decode_failure())
            }
        },
        None => Err(decode_failure()),
    }
}

} // verus!
