//! Encoding an event into its JSON wire form, with the wire's capitalized
//! field names.

use vstd::prelude::*;
use crate::event::Event;
use crate::event::EventData;
use crate::event::EventDataView;
use crate::event::EventView;
use crate::num::dec_int;
use crate::num::hex_digit_char;
use crate::num::hex_digit_char_exec;
use crate::num::i64_to_chars;
use crate::text::chars_to_string;

verus! {

/// JSON escape of one character: quotes and backslashes get a backslash,
/// control characters the `\u00XX` form, every other character stands as
/// itself.
pub open spec fn esc_char(c: char) -> Seq<char> {
    if c == '"' {
        seq!['\\', '"']
    } else if c == '\\' {
        seq!['\\', '\\']
    } else if (c as u32) < 32 {
        seq!['\\', 'u', '0', '0', hex_digit_char((c as u32 / 16) as int), hex_digit_char(
            (c as u32 % 16) as int,
        )]
    } else {
        seq![c]
    }
}

/// JSON escape of a string's characters.
pub open spec fn esc(s: Seq<char>) -> Seq<char>
    decreases s.len(),
{
    if s.len() == 0 {
        Seq::empty()
    } else {
        esc_char(s[0]) + esc(s.drop_first())
    }
}

pub proof fn lemma_esc_append(a: Seq<char>, b: Seq<char>)
    ensures
        esc(a + b) == esc(a) + esc(b),
    decreases a.len(),
{
    if a.len() == 0 {
        assert(a + b =~= b);
        assert(esc(a) + esc(b) =~= esc(b));
    } else {
        assert((a + b).drop_first() =~= a.drop_first() + b);
        assert((a + b)[0] == a[0]);
        lemma_esc_append(a.drop_first(), b);
        assert(esc(a + b) =~= esc(a) + esc(b));
    }
}

/// A quoted JSON string: escaped content between double quotes.
pub open spec fn quoted(s: Seq<char>) -> Seq<char> {
    seq!['"'] + esc(s) + seq!['"']
}

/// JSON boolean literals.
pub open spec fn bool_chars(b: bool) -> Seq<char> {
    if b {
        seq!['t', 'r', 'u', 'e']
    } else {
        seq!['f', 'a', 'l', 's', 'e']
    }
}

/// One `"key":value` object member followed by the given separator.
pub open spec fn member(key: Seq<char>, value: Seq<char>, sep: char) -> Seq<char> {
    quoted(key) + seq![':'] + value + seq![sep]
}

/// The JSON form of the nested payload, members in wire order.
pub open spec fn spec_encode_event_data(d: EventDataView) -> Seq<char> {
    seq!['{'] + member("RoomId"@, dec_int(d.room_id), ',') + member(
        "ShortId"@,
        dec_int(d.short_id),
        ',',
    ) + member("Name"@, quoted(d.name), ',') + member("Title"@, quoted(d.title), ',') + member(
        "AreaNameParent"@,
        quoted(d.area_name_parent),
        ',',
    ) + member("AreaNameChild"@, quoted(d.area_name_child), ',') + member(
        "Recording"@,
        bool_chars(d.recording),
        ',',
    ) + member("Streaming"@, bool_chars(d.streaming), ',') + member(
        "DanmakuConnected"@,
        bool_chars(d.danmaku_connected),
        '}',
    )
}

/// The JSON form of a whole event, members in wire order.
pub open spec fn spec_encode_event(e: EventView) -> Seq<char> {
    seq!['{'] + member("EventType"@, quoted(e.event_type), ',') + member(
        "EventTimestamp"@,
        quoted(e.event_timestamp),
        ',',
    ) + member("EventId"@, quoted(e.event_id), ',') + member(
        "EventData"@,
        spec_encode_event_data(e.event_data),
        '}',
    )
}

#[verifier::loop_isolation(false)]
fn push_esc_char(out: &mut Vec<char>, c: char)
    ensures
        final(out)@ == old(out)@ + esc_char(c),
{
    if c == '"' {
        out.push('\\');
        out.push('"');
        assert(out@ =~= old(out)@ + esc_char(c));
    } else if c == '\\' {
        out.push('\\');
        out.push('\\');
        assert(out@ =~= old(out)@ + esc_char(c));
    } else {
        let cv = c as u32;
        if cv < 32 {
            out.push('\\');
            out.push('u');
            out.push('0');
            out.push('0');
            out.push(hex_digit_char_exec((cv / 16) as u8));
            out.push(hex_digit_char_exec((cv % 16) as u8));
            assert(out@ =~= old(out)@ + esc_char(c));
        } else {
            out.push(c);
            assert(out@ =~= old(out)@ + esc_char(c));
        }
    }
}

#[verifier::loop_isolation(false)]
fn push_esc(out: &mut Vec<char>, s: &str)
    ensures
        final(out)@ == old(out)@ + esc(s@),
{
    let n = s.unicode_len();
    let mut k: usize = 0;
    while k < n
        invariant
            n == s@.len(),
            0 <= k <= n,
            out@ == old(out)@ + esc(s@.take(k as int)),
        decreases n - k,
    {
        let c = s.get_char(k);
        push_esc_char(out, c);
        proof {
            lemma_esc_append(s@.take(k as int), seq![s@[k as int]]);
            assert(s@.take(k as int) + seq![s@[k as int]] =~= s@.take(k as int + 1));
            assert(seq![s@[k as int]].drop_first() =~= Seq::<char>::empty());
            assert(esc(Seq::<char>::empty()) =~= Seq::<char>::empty());
            assert(esc(seq![s@[k as int]]) == esc_char(s@[k as int]) + esc(
                seq![s@[k as int]].drop_first(),
            ));
            assert(esc(seq![s@[k as int]]) =~= esc_char(s@[k as int]));
            assert(out@ =~= old(out)@ + esc(s@.take(k as int + 1)));
        }
        k = k + 1;
    }
    assert(s@.take(n as int) =~= s@);
}

#[verifier::loop_isolation(false)]
fn push_quoted(out: &mut Vec<char>, s: &str)
    ensures
        final(out)@ == old(out)@ + quoted(s@),
{
    out.push('"');
    push_esc(out, s);
    out.push('"');
    assert(out@ =~= old(out)@ + quoted(s@));
}

fn push_bool(out: &mut Vec<char>, b: bool)
    ensures
        final(out)@ == old(out)@ + bool_chars(b),
{
    if b {
        out.push('t');
        out.push('r');
        out.push('u');
        out.push('e');
        assert(out@ =~= old(out)@ + bool_chars(b));
    } else {
        out.push('f');
        out.push('a');
        out.push('l');
        out.push('s');
        out.push('e');
        assert(out@ =~= old(out)@ + bool_chars(b));
    }
}

#[verifier::loop_isolation(false)]
fn push_i64(out: &mut Vec<char>, v: i64)
    ensures
        final(out)@ == old(out)@ + dec_int(v as int),
{
    let ds = i64_to_chars(v);
    let mut k: usize = 0;
    while k < ds.len()
        invariant
            0 <= k <= ds@.len(),
            ds@ == dec_int(v as int),
            out@ == old(out)@ + ds@.take(k as int),
        decreases ds@.len() - k,
    {
        out.push(ds[k]);
        assert(out@ =~= old(out)@ + ds@.take(k as int + 1));
        k = k + 1;
    }
    assert(ds@.take(ds@.len() as int) =~= ds@);
}

fn push_member_i64(out: &mut Vec<char>, key: &str, v: i64, sep: char)
    ensures
        final(out)@ == old(out)@ + member(key@, dec_int(v as int), sep),
{
    push_quoted(out, key);
    out.push(':');
    push_i64(out, v);
    out.push(sep);
    assert(out@ =~= old(out)@ + member(key@, dec_int(v as int), sep));
}

fn push_member_str(out: &mut Vec<char>, key: &str, v: &str, sep: char)
    ensures
        final(out)@ == old(out)@ + member(key@, quoted(v@), sep),
{
    push_quoted(out, key);
    out.push(':');
    push_quoted(out, v);
    out.push(sep);
    assert(out@ =~= old(out)@ + member(key@, quoted(v@), sep));
}

fn push_member_bool(out: &mut Vec<char>, key: &str, b: bool, sep: char)
    ensures
        final(out)@ == old(out)@ + member(key@, bool_chars(b), sep),
{
    push_quoted(out, key);
    out.push(':');
    push_bool(out, b);
    out.push(sep);
    assert(out@ =~= old(out)@ + member(key@, bool_chars(b), sep));
}

/// Append the JSON form of the nested payload.
#[verifier::rlimit(100)]
fn encode_event_data_chars(d: &EventData, out: &mut Vec<char>)
    ensures
        final(out)@ == old(out)@ + spec_encode_event_data(d@),
{
    out.push('{');
    push_member_i64(out, "RoomId", d.room_id, ',');
    push_member_i64(out, "ShortId", d.short_id, ',');
    push_member_str(out, "Name", d.name.as_str(), ',');
    push_member_str(out, "Title", d.title.as_str(), ',');
    push_member_str(out, "AreaNameParent", d.area_name_parent.as_str(), ',');
    push_member_str(out, "AreaNameChild", d.area_name_child.as_str(), ',');
    push_member_bool(out, "Recording", d.recording, ',');
    push_member_bool(out, "Streaming", d.streaming, ',');
    push_member_bool(out, "DanmakuConnected", d.danmaku_connected, '}');
    assert(out@ =~= old(out)@ + spec_encode_event_data(d@));
}

/// Encode an event into its JSON wire text.
#[verifier::rlimit(100)]
pub fn encode_event(e: &Event) -> (r: String)
    ensures
        r@ == spec_encode_event(e@),
{
    let mut out: Vec<char> = Vec::new();
    out.push('{');
    push_member_str(&mut out, "EventType", e.event_type.as_str(), ',');
    push_member_str(&mut out, "EventTimestamp", e.event_timestamp.as_str(), ',');
    push_member_str(&mut out, "EventId", e.event_id.as_str(), ',');
    push_quoted(&mut out, "EventData");
    out.push(':');
    encode_event_data_chars(&e.event_data, &mut out);
    out.push('}');
    assert(out@ =~= spec_encode_event(e@));
    chars_to_string(&out)
}

} // verus!
