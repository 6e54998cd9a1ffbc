//! The encode/decode round trip: a JSON text produced by the encoder decodes
//! back to the very event it came from.

use vstd::prelude::*;
use crate::decode::empty_partial_data;
use crate::decode::finish_data;
use crate::decode::is_json_ws;
use crate::decode::spec_data_field;
use crate::decode::spec_data_members;
use crate::decode::spec_parse_data_obj;
use crate::decode::spec_event_field;
use crate::decode::spec_event_members;
use crate::decode::spec_parse_event;
use crate::decode::spec_decode;
use crate::decode::empty_partial_event;
use crate::decode::finish_event;
use crate::decode::scalar_ok;
use crate::decode::spec_parse_bool;
use crate::decode::spec_parse_escape;
use crate::decode::spec_parse_nat;
use crate::decode::spec_parse_number;
use crate::decode::spec_parse_string;
use crate::decode::spec_parse_string_rest;
use crate::decode::spec_skip_ws;
use crate::encode::bool_chars;
use crate::encode::spec_encode_event_data;
use crate::event::EventDataView;
use crate::event::EventView;
use crate::event::event_view_wf;
use crate::encode::spec_encode_event;
use crate::encode::esc;
use crate::encode::esc_char;
use crate::encode::member;
use crate::encode::quoted;
use crate::num::dec_int;
use crate::num::dec_nat;
use crate::num::hex_digit_char;
use crate::num::is_digit;
use crate::num::lemma_dec_nat_facts;
use crate::num::lemma_hex_digit_char;
use crate::num::lemma_parse_digits_of_dec;
use crate::num::parse_digits_from;
use crate::num::pow10;

verus! {

/// Skipping whitespace does not move off a non-whitespace character.
pub proof fn lemma_ws_stay(s: Seq<char>, i: int)
    requires
        0 <= i,
        i < s.len() ==> !is_json_ws(s[i]),
    ensures
        spec_skip_ws(s, i) == i,
{
}

/// A concatenation embedded in `s` splits into its two embedded halves.
pub proof fn lemma_subrange_split(s: Seq<char>, i: int, a: Seq<char>, b: Seq<char>)
    requires
        0 <= i,
        i + a.len() + b.len() <= s.len(),
        s.subrange(i, i + a.len() + b.len()) == a + b,
    ensures
        s.subrange(i, i + a.len() as int) == a,
        s.subrange(i + a.len() as int, i + a.len() + b.len()) == b,
{
    let l = a.len() + b.len();
    let sr = s.subrange(i, i + l);
    assert(s.subrange(i, i + a.len() as int) =~= a) by {
        assert forall|t: int| 0 <= t < a.len() implies s.subrange(i, i + a.len() as int)[t]
            == a[t] by {
            assert(s.subrange(i, i + a.len() as int)[t] == s[i + t]);
            assert(sr[t] == s[i + t]);
            assert(sr[t] == (a + b)[t]);
        }
    }
    assert(s.subrange(i + a.len() as int, i + l) =~= b) by {
        assert forall|t: int| 0 <= t < b.len() implies s.subrange(i + a.len() as int, i + l)[t]
            == b[t] by {
            assert(s.subrange(i + a.len() as int, i + l)[t] == s[i + a.len() + t]);
            assert(sr[a.len() + t] == s[i + a.len() + t]);
            assert(sr[a.len() + t] == (a + b)[a.len() + t]);
        }
    }
}

/// Every character of `s` within an embedded piece is the piece's character.
pub proof fn lemma_subrange_chars(s: Seq<char>, i: int, a: Seq<char>)
    requires
        0 <= i,
        i + a.len() <= s.len(),
        s.subrange(i, i + a.len() as int) == a,
    ensures
        forall|t: int| 0 <= t < a.len() ==> s[i + t] == a[t],
        a.len() > 0 ==> s[i] == a[0],
{
    assert forall|t: int| 0 <= t < a.len() implies s[i + t] == a[t] by {
        assert(s.subrange(i, i + a.len() as int)[t] == s[i + t]);
    }
    if a.len() > 0 {
        assert(s.subrange(i, i + a.len() as int)[0] == s[i + 0]);
    }
}

/// Reading a string literal whose embedded content is the escape of `s0`
/// yields exactly `s0` appended to what was read before.
pub proof fn lemma_parse_rest_of_esc(s: Seq<char>, i: int, acc: Seq<char>, s0: Seq<char>)
    requires
        0 <= i,
        i + esc(s0).len() < s.len(),
        s.subrange(i, i + esc(s0).len() as int) == esc(s0),
        s[i + esc(s0).len()] == '"',
    ensures
        spec_parse_string_rest(s, i, acc) == Some((acc + s0, i + esc(s0).len() + 1)),
    decreases s0.len(),
{
    lemma_subrange_chars(s, i, esc(s0));
    if s0.len() == 0 {
        assert(esc(s0).len() == 0);
        assert(s[i] == '"');
        assert(acc + s0 =~= acc);
    } else {
        let c = s0[0];
        let rest = s0.drop_first();
        assert(esc(s0) == esc_char(c) + esc(rest));
        let el = esc_char(c).len() as int;
        let tl = esc(rest).len() as int;
        lemma_subrange_split(s, i, esc_char(c), esc(rest));
        lemma_subrange_chars(s, i, esc_char(c));
        let acc2 = acc.push(c);
        assert(acc2 + rest =~= acc + s0);
        if c == '"' {
            assert(s[i] == '\\' && s[i + 1] == '"');
            assert(spec_parse_escape(s, i + 1) == Some(('"', i + 2)));
            assert(spec_parse_string_rest(s, i, acc) == spec_parse_string_rest(s, i + 2, acc2));
            lemma_parse_rest_of_esc(s, i + 2, acc2, rest);
        } else if c == '\\' {
            assert(s[i] == '\\' && s[i + 1] == '\\');
            assert(spec_parse_escape(s, i + 1) == Some(('\\', i + 2)));
            assert(spec_parse_string_rest(s, i, acc) == spec_parse_string_rest(s, i + 2, acc2));
            lemma_parse_rest_of_esc(s, i + 2, acc2, rest);
        } else if (c as u32) < 32 {
            let cu = c as u32;
            let h1 = hex_digit_char((cu / 16) as int);
            let h2 = hex_digit_char((cu % 16) as int);
            assert(s[i] == '\\' && s[i + 1] == 'u' && s[i + 2] == '0' && s[i + 3] == '0' && s[i + 4]
                == h1 && s[i + 5] == h2);
            lemma_hex_digit_char((cu / 16) as int);
            lemma_hex_digit_char((cu % 16) as int);
            assert(crate::num::is_hex('0') && crate::num::hex_val('0') == 0);
            assert((cu / 16) * 16 + cu % 16 == cu);
            assert(scalar_ok(cu));
            vstd::utf8::char_u32_cast(c, cu);
            assert(spec_parse_escape(s, i + 1) == Some((c, i + 6)));
            assert(spec_parse_string_rest(s, i, acc) == spec_parse_string_rest(s, i + 6, acc2));
            lemma_parse_rest_of_esc(s, i + 6, acc2, rest);
        } else {
            assert(s[i] == c);
            assert(spec_parse_string_rest(s, i, acc) == spec_parse_string_rest(s, i + 1, acc2));
            lemma_parse_rest_of_esc(s, i + 1, acc2, rest);
        }
    }
}

/// Reading a whole quoted string embedded in `s` yields its content.
pub proof fn lemma_parse_string_of_quoted(s: Seq<char>, i: int, s0: Seq<char>)
    requires
        0 <= i,
        i + quoted(s0).len() <= s.len(),
        s.subrange(i, i + quoted(s0).len() as int) == quoted(s0),
    ensures
        spec_parse_string(s, i) == Some((s0, i + quoted(s0).len())),
{
    lemma_subrange_split(s, i, seq!['"'] + esc(s0), seq!['"']);
    lemma_subrange_split(s, i, seq!['"'], esc(s0));
    lemma_subrange_chars(s, i, seq!['"']);
    lemma_subrange_chars(s, i + 1 + esc(s0).len() as int, seq!['"']);
    assert(s[i] == '"');
    assert(s[i + 1 + esc(s0).len()] == '"');
    lemma_parse_rest_of_esc(s, i + 1, Seq::empty(), s0);
    assert(Seq::empty() + s0 =~= s0);
}

/// Reading the decimal notation of `val` embedded in `s`, with no digit
/// right after it, yields exactly `val`.
pub proof fn lemma_parse_number_of_dec(s: Seq<char>, i: int, val: int)
    requires
        0 <= i,
        i + dec_int(val).len() < s.len(),
        s.subrange(i, i + dec_int(val).len() as int) == dec_int(val),
        !is_digit(s[i + dec_int(val).len()]),
    ensures
        spec_parse_number(s, i) == Some((val, i + dec_int(val).len())),
{
    lemma_subrange_chars(s, i, dec_int(val));
    if val >= 0 {
        let n = val as nat;
        lemma_dec_nat_facts(n);
        assert(s[i] == dec_nat(n)[0]);
        if n == 0 {
            assert(dec_nat(n) == seq!['0']);
            assert(s[i] == '0');
            assert(spec_parse_nat(s, i) == Some((0int, i + 1)));
        } else if n < 10 {
            assert(s[i] != '0');
            assert(is_digit(s[i]));
            lemma_parse_digits_of_dec(s, i, 0, n);
            assert(parse_digits_from(s, i + dec_nat(n).len() as int, 0 * pow10(
                dec_nat(n).len(),
            ) as int + n) == (n as int, i + dec_nat(n).len() as int));
        } else {
            assert(s[i] != '0');
            assert(is_digit(s[i]));
            lemma_parse_digits_of_dec(s, i, 0, n);
            assert(parse_digits_from(s, i + dec_nat(n).len() as int, 0 * pow10(
                dec_nat(n).len(),
            ) as int + n) == (n as int, i + dec_nat(n).len() as int));
        }
    } else {
        let n = (-val) as nat;
        lemma_dec_nat_facts(n);
        assert(dec_int(val) == seq!['-'] + dec_nat(n));
        lemma_subrange_split(s, i, seq!['-'], dec_nat(n));
        lemma_subrange_chars(s, i, seq!['-']);
        lemma_subrange_chars(s, i + 1, dec_nat(n));
        assert(s[i] == '-');
        assert(s[i + 1] == dec_nat(n)[0]);
        assert(s[i + 1] != '0');
        assert(is_digit(s[i + 1]));
        lemma_parse_digits_of_dec(s, i + 1, 0, n);
        assert(parse_digits_from(s, i + 1 + dec_nat(n).len() as int, 0 * pow10(
            dec_nat(n).len(),
        ) as int + n) == (n as int, i + 1 + dec_nat(n).len() as int));
        assert(spec_parse_nat(s, i + 1) == Some((n as int, i + 1 + dec_nat(n).len() as int)));
    }
}

/// Reading an embedded boolean literal yields its value.
pub proof fn lemma_parse_bool_of_chars(s: Seq<char>, i: int, b: bool)
    requires
        0 <= i,
        i + bool_chars(b).len() <= s.len(),
        s.subrange(i, i + bool_chars(b).len() as int) == bool_chars(b),
    ensures
        spec_parse_bool(s, i) == Some((b, i + bool_chars(b).len())),
{
    lemma_subrange_chars(s, i, bool_chars(b));
}

/// The shape of one embedded `"key":value` member followed by its separator:
/// the key reads back, no whitespace is skipped anywhere inside, the value
/// stands at its position, and the separator right after it.
pub proof fn lemma_member_shape(s: Seq<char>, i: int, key: Seq<char>, value: Seq<char>, sep: char)
    requires
        0 <= i,
        i + member(key, value, sep).len() <= s.len(),
        s.subrange(i, i + member(key, value, sep).len() as int) == member(key, value, sep),
        value.len() > 0,
        !is_json_ws(value[0]),
        !is_json_ws(sep),
    ensures
        spec_parse_string(s, i) == Some((key, i + quoted(key).len())),
        s[i + quoted(key).len()] == ':',
        spec_skip_ws(s, i + quoted(key).len()) == i + quoted(key).len(),
        spec_skip_ws(s, i + quoted(key).len() + 1) == i + quoted(key).len() + 1,
        s.subrange(
            i + quoted(key).len() + 1,
            i + quoted(key).len() + 1 + value.len(),
        ) == value,
        s[i + quoted(key).len() + 1 + value.len()] == sep,
        spec_skip_ws(s, i + quoted(key).len() + 1 + value.len()) == i + quoted(key).len() + 1
            + value.len(),
{
    let ql = quoted(key).len() as int;
    let vl = value.len() as int;
    lemma_subrange_split(s, i, quoted(key) + seq![':'] + value, seq![sep]);
    lemma_subrange_split(s, i, quoted(key) + seq![':'], value);
    lemma_subrange_split(s, i, quoted(key), seq![':']);
    lemma_subrange_chars(s, i + ql, seq![':']);
    lemma_subrange_chars(s, i + ql + 1 + vl, seq![sep]);
    lemma_parse_string_of_quoted(s, i, key);
    assert(s[i + ql] == ':');
    assert(s[i + ql + 1 + vl] == sep);
    lemma_subrange_chars(s, i + ql + 1, value);
    assert(s[i + ql + 1] == value[0]);
    lemma_ws_stay(s, i + ql);
    lemma_ws_stay(s, i + ql + 1);
    lemma_ws_stay(s, i + ql + 1 + vl);
}

/// One member with a comma separator advances the member scan by the
/// member's length, extending the accumulator as `spec_data_field` says.
pub proof fn lemma_data_members_step(
    s: Seq<char>,
    i: int,
    a: crate::decode::PartialData,
    key: Seq<char>,
    value: Seq<char>,
    a2: crate::decode::PartialData,
)
    requires
        0 <= i,
        i + member(key, value, ',').len() < s.len(),
        s.subrange(i, i + member(key, value, ',').len() as int) == member(key, value, ','),
        value.len() > 0,
        !is_json_ws(value[0]),
        spec_data_field(s, i + quoted(key).len() + 1, key, a) == Some(
            (a2, i + quoted(key).len() + 1 + value.len() as int),
        ),
        s[i + member(key, value, ',').len()] == '"',
    ensures
        spec_data_members(s, i, a) == spec_data_members(
            s,
            i + member(key, value, ',').len() as int,
            a2,
        ),
{
    assert(!is_json_ws(','));
    lemma_member_shape(s, i, key, value, ',');
    let w = i + quoted(key).len() + 1 + value.len() as int;
    assert(s[w] == ',');
    lemma_ws_stay(s, w + 1);
}

/// The last member, with the closing brace as separator, finishes the object.
pub proof fn lemma_data_members_close(
    s: Seq<char>,
    i: int,
    a: crate::decode::PartialData,
    key: Seq<char>,
    value: Seq<char>,
    a2: crate::decode::PartialData,
    d: EventDataView,
)
    requires
        0 <= i,
        i + member(key, value, '}').len() <= s.len(),
        s.subrange(i, i + member(key, value, '}').len() as int) == member(key, value, '}'),
        value.len() > 0,
        !is_json_ws(value[0]),
        spec_data_field(s, i + quoted(key).len() + 1, key, a) == Some(
            (a2, i + quoted(key).len() + 1 + value.len() as int),
        ),
        finish_data(a2) == Some(d),
    ensures
        spec_data_members(s, i, a) == Some((d, i + member(key, value, '}').len() as int)),
{
    assert(!is_json_ws('}'));
    lemma_member_shape(s, i, key, value, '}');
    let w = i + quoted(key).len() + 1 + value.len() as int;
    assert(s[w] == '}');
}

/// The decimal notation of an integer starts with a minus sign or a digit,
/// never whitespace.
pub proof fn lemma_dec_int_head(v: int)
    ensures
        dec_int(v).len() > 0,
        !is_json_ws(dec_int(v)[0]),
{
    if v < 0 {
        lemma_dec_nat_facts((-v) as nat);
        assert(dec_int(v)[0] == '-');
    } else {
        lemma_dec_nat_facts(v as nat);
        assert(is_digit(dec_int(v)[0]));
    }
}


/// How `spec_data_field` extends the accumulator for each known key, given
/// the value parsed at `m`.
pub proof fn lemma_dispatch_room_id(
    s: Seq<char>,
    m: int,
    a: crate::decode::PartialData,
    val: int,
    n: int,
)
    requires
        a.room_id is None,
        spec_parse_number(s, m) == Some((val, n)),
        i64::MIN <= val <= i64::MAX,
    ensures
        spec_data_field(s, m, "RoomId"@, a) == Some(
            (crate::decode::PartialData { room_id: Some(val), ..a }, n),
        ),
{
}

pub proof fn lemma_dispatch_short_id(
    s: Seq<char>,
    m: int,
    a: crate::decode::PartialData,
    val: int,
    n: int,
)
    requires
        a.short_id is None,
        spec_parse_number(s, m) == Some((val, n)),
        i64::MIN <= val <= i64::MAX,
    ensures
        spec_data_field(s, m, "ShortId"@, a) == Some(
            (crate::decode::PartialData { short_id: Some(val), ..a }, n),
        ),
{
    reveal_strlit("RoomId");
    assert("RoomId"@.len() == 6);
    reveal_strlit("ShortId");
    assert("ShortId"@.len() == 7);
    assert("ShortId"@ != "RoomId"@);
}

pub proof fn lemma_dispatch_name(
    s: Seq<char>,
    m: int,
    a: crate::decode::PartialData,
    txt: Seq<char>,
    n: int,
)
    requires
        a.name is None,
        spec_parse_string(s, m) == Some((txt, n)),
    ensures
        spec_data_field(s, m, "Name"@, a) == Some(
            (crate::decode::PartialData { name: Some(txt), ..a }, n),
        ),
{
    reveal_strlit("RoomId");
    assert("RoomId"@.len() == 6);
    reveal_strlit("ShortId");
    assert("ShortId"@.len() == 7);
    reveal_strlit("Name");
    assert("Name"@.len() == 4);
    assert("Name"@ != "RoomId"@ && "Name"@ != "ShortId"@);
}

pub proof fn lemma_dispatch_title(
    s: Seq<char>,
    m: int,
    a: crate::decode::PartialData,
    txt: Seq<char>,
    n: int,
)
    requires
        a.title is None,
        spec_parse_string(s, m) == Some((txt, n)),
    ensures
        spec_data_field(s, m, "Title"@, a) == Some(
            (crate::decode::PartialData { title: Some(txt), ..a }, n),
        ),
{
    reveal_strlit("RoomId");
    assert("RoomId"@.len() == 6);
    reveal_strlit("ShortId");
    assert("ShortId"@.len() == 7);
    reveal_strlit("Name");
    assert("Name"@.len() == 4);
    reveal_strlit("Title");
    assert("Title"@.len() == 5);
    assert("Title"@ != "RoomId"@ && "Title"@ != "ShortId"@ && "Title"@ != "Name"@);
}

pub proof fn lemma_dispatch_area_name_parent(
    s: Seq<char>,
    m: int,
    a: crate::decode::PartialData,
    txt: Seq<char>,
    n: int,
)
    requires
        a.area_name_parent is None,
        spec_parse_string(s, m) == Some((txt, n)),
    ensures
        spec_data_field(s, m, "AreaNameParent"@, a) == Some(
            (crate::decode::PartialData { area_name_parent: Some(txt), ..a }, n),
        ),
{
    reveal_strlit("RoomId");
    assert("RoomId"@.len() == 6);
    reveal_strlit("ShortId");
    assert("ShortId"@.len() == 7);
    reveal_strlit("Name");
    assert("Name"@.len() == 4);
    reveal_strlit("Title");
    assert("Title"@.len() == 5);
    reveal_strlit("AreaNameParent");
    assert("AreaNameParent"@.len() == 14);
    assert("AreaNameParent"@ != "RoomId"@ && "AreaNameParent"@ != "ShortId"@ && "AreaNameParent"@
        != "Name"@ && "AreaNameParent"@ != "Title"@);
}

pub proof fn lemma_dispatch_area_name_child(
    s: Seq<char>,
    m: int,
    a: crate::decode::PartialData,
    txt: Seq<char>,
    n: int,
)
    requires
        a.area_name_child is None,
        spec_parse_string(s, m) == Some((txt, n)),
    ensures
        spec_data_field(s, m, "AreaNameChild"@, a) == Some(
            (crate::decode::PartialData { area_name_child: Some(txt), ..a }, n),
        ),
{
    reveal_strlit("RoomId");
    assert("RoomId"@.len() == 6);
    reveal_strlit("ShortId");
    assert("ShortId"@.len() == 7);
    reveal_strlit("Name");
    assert("Name"@.len() == 4);
    reveal_strlit("Title");
    assert("Title"@.len() == 5);
    reveal_strlit("AreaNameParent");
    assert("AreaNameParent"@.len() == 14);
    reveal_strlit("AreaNameChild");
    assert("AreaNameChild"@.len() == 13);
    assert("AreaNameChild"@ != "RoomId"@ && "AreaNameChild"@ != "ShortId"@ && "AreaNameChild"@
        != "Name"@ && "AreaNameChild"@ != "Title"@ && "AreaNameChild"@ != "AreaNameParent"@);
}

pub proof fn lemma_dispatch_recording(
    s: Seq<char>,
    m: int,
    a: crate::decode::PartialData,
    b: bool,
    n: int,
)
    requires
        a.recording is None,
        spec_parse_bool(s, m) == Some((b, n)),
    ensures
        spec_data_field(s, m, "Recording"@, a) == Some(
            (crate::decode::PartialData { recording: Some(b), ..a }, n),
        ),
{
    reveal_strlit("RoomId");
    assert("RoomId"@.len() == 6);
    reveal_strlit("ShortId");
    assert("ShortId"@.len() == 7);
    reveal_strlit("Name");
    assert("Name"@.len() == 4);
    reveal_strlit("Title");
    assert("Title"@.len() == 5);
    reveal_strlit("AreaNameParent");
    assert("AreaNameParent"@.len() == 14);
    reveal_strlit("AreaNameChild");
    assert("AreaNameChild"@.len() == 13);
    reveal_strlit("Recording");
    assert("Recording"@.len() == 9);
    assert("Recording"@ != "RoomId"@ && "Recording"@ != "ShortId"@ && "Recording"@ != "Name"@
        && "Recording"@ != "Title"@ && "Recording"@ != "AreaNameParent"@ && "Recording"@
        != "AreaNameChild"@);
}

pub proof fn lemma_dispatch_streaming(
    s: Seq<char>,
    m: int,
    a: crate::decode::PartialData,
    b: bool,
    n: int,
)
    requires
        a.streaming is None,
        spec_parse_bool(s, m) == Some((b, n)),
    ensures
        spec_data_field(s, m, "Streaming"@, a) == Some(
            (crate::decode::PartialData { streaming: Some(b), ..a }, n),
        ),
{
    reveal_strlit("RoomId");
    assert("RoomId"@.len() == 6);
    reveal_strlit("ShortId");
    assert("ShortId"@.len() == 7);
    reveal_strlit("Name");
    assert("Name"@.len() == 4);
    reveal_strlit("Title");
    assert("Title"@.len() == 5);
    reveal_strlit("AreaNameParent");
    assert("AreaNameParent"@.len() == 14);
    reveal_strlit("AreaNameChild");
    assert("AreaNameChild"@.len() == 13);
    reveal_strlit("Recording");
    assert("Recording"@.len() == 9);
    reveal_strlit("Streaming");
    assert("Streaming"@.len() == 9);
    assert("Streaming"@[0] == 'S' && "Recording"@[0] == 'R');
    assert("Streaming"@ != "RoomId"@ && "Streaming"@ != "ShortId"@ && "Streaming"@ != "Name"@
        && "Streaming"@ != "Title"@ && "Streaming"@ != "AreaNameParent"@ && "Streaming"@
        != "AreaNameChild"@ && "Streaming"@ != "Recording"@);
}

pub proof fn lemma_dispatch_danmaku_connected(
    s: Seq<char>,
    m: int,
    a: crate::decode::PartialData,
    b: bool,
    n: int,
)
    requires
        a.danmaku_connected is None,
        spec_parse_bool(s, m) == Some((b, n)),
    ensures
        spec_data_field(s, m, "DanmakuConnected"@, a) == Some(
            (crate::decode::PartialData { danmaku_connected: Some(b), ..a }, n),
        ),
{
    reveal_strlit("RoomId");
    assert("RoomId"@.len() == 6);
    reveal_strlit("ShortId");
    assert("ShortId"@.len() == 7);
    reveal_strlit("Name");
    assert("Name"@.len() == 4);
    reveal_strlit("Title");
    assert("Title"@.len() == 5);
    reveal_strlit("AreaNameParent");
    assert("AreaNameParent"@.len() == 14);
    reveal_strlit("AreaNameChild");
    assert("AreaNameChild"@.len() == 13);
    reveal_strlit("Recording");
    assert("Recording"@.len() == 9);
    reveal_strlit("Streaming");
    assert("Streaming"@.len() == 9);
    reveal_strlit("DanmakuConnected");
    assert("DanmakuConnected"@.len() == 16);
    assert("DanmakuConnected"@ != "RoomId"@ && "DanmakuConnected"@ != "ShortId"@
        && "DanmakuConnected"@ != "Name"@ && "DanmakuConnected"@ != "Title"@
        && "DanmakuConnected"@ != "AreaNameParent"@ && "DanmakuConnected"@ != "AreaNameChild"@
        && "DanmakuConnected"@ != "Recording"@ && "DanmakuConnected"@ != "Streaming"@);
}

/// A parsed payload object embedded in `s` at `i`, as the encoder writes it,
/// yields exactly the payload it encodes.
#[verifier::rlimit(100)]
pub proof fn lemma_parse_data_of_encoded(s: Seq<char>, i: int, d: EventDataView)
    requires
        0 <= i,
        i + spec_encode_event_data(d).len() <= s.len(),
        s.subrange(i, i + spec_encode_event_data(d).len() as int) == spec_encode_event_data(d),
        i64::MIN <= d.room_id <= i64::MAX,
        i64::MIN <= d.short_id <= i64::MAX,
    ensures
        spec_parse_data_obj(s, i) == Some((d, i + spec_encode_event_data(d).len())),
{
    let m1 = member("RoomId"@, dec_int(d.room_id), ',');
    let m2 = member("ShortId"@, dec_int(d.short_id), ',');
    let m3 = member("Name"@, quoted(d.name), ',');
    let m4 = member("Title"@, quoted(d.title), ',');
    let m5 = member("AreaNameParent"@, quoted(d.area_name_parent), ',');
    let m6 = member("AreaNameChild"@, quoted(d.area_name_child), ',');
    let m7 = member("Recording"@, bool_chars(d.recording), ',');
    let m8 = member("Streaming"@, bool_chars(d.streaming), ',');
    let m9 = member("DanmakuConnected"@, bool_chars(d.danmaku_connected), '}');
    let enc = spec_encode_event_data(d);
    assert(enc == seq!['{'] + m1 + m2 + m3 + m4 + m5 + m6 + m7 + m8 + m9);
    lemma_subrange_split(s, i, seq!['{'] + m1 + m2 + m3 + m4 + m5 + m6 + m7 + m8, m9);
    lemma_subrange_split(s, i, seq!['{'] + m1 + m2 + m3 + m4 + m5 + m6 + m7, m8);
    lemma_subrange_split(s, i, seq!['{'] + m1 + m2 + m3 + m4 + m5 + m6, m7);
    lemma_subrange_split(s, i, seq!['{'] + m1 + m2 + m3 + m4 + m5, m6);
    lemma_subrange_split(s, i, seq!['{'] + m1 + m2 + m3 + m4, m5);
    lemma_subrange_split(s, i, seq!['{'] + m1 + m2 + m3, m4);
    lemma_subrange_split(s, i, seq!['{'] + m1 + m2, m3);
    lemma_subrange_split(s, i, seq!['{'] + m1, m2);
    lemma_subrange_split(s, i, seq!['{'], m1);
    lemma_subrange_chars(s, i, seq!['{']);
    let p1 = i + 1;
    let p2 = p1 + m1.len() as int;
    let p3 = p2 + m2.len() as int;
    let p4 = p3 + m3.len() as int;
    let p5 = p4 + m4.len() as int;
    let p6 = p5 + m5.len() as int;
    let p7 = p6 + m6.len() as int;
    let p8 = p7 + m7.len() as int;
    let p9 = p8 + m8.len() as int;
    let pe = p9 + m9.len() as int;
    lemma_subrange_chars(s, p1, m1);
    lemma_subrange_chars(s, p2, m2);
    lemma_subrange_chars(s, p3, m3);
    lemma_subrange_chars(s, p4, m4);
    lemma_subrange_chars(s, p5, m5);
    lemma_subrange_chars(s, p6, m6);
    lemma_subrange_chars(s, p7, m7);
    lemma_subrange_chars(s, p8, m8);
    lemma_subrange_chars(s, p9, m9);
    assert(s[p1] == '"');
    assert(s[p2] == '"');
    assert(s[p3] == '"');
    assert(s[p4] == '"');
    assert(s[p5] == '"');
    assert(s[p6] == '"');
    assert(s[p7] == '"');
    assert(s[p8] == '"');
    assert(s[p9] == '"');
    let a0 = empty_partial_data();
    // RoomId
    lemma_dec_int_head(d.room_id);
    lemma_member_shape(s, p1, "RoomId"@, dec_int(d.room_id), ',');
    let v1 = p1 + quoted("RoomId"@).len() as int + 1;
    assert(!is_digit(s[v1 + dec_int(d.room_id).len()]));
    lemma_parse_number_of_dec(s, v1, d.room_id);
    let a1 = crate::decode::PartialData { room_id: Some(d.room_id), ..a0 };
    lemma_dispatch_room_id(s, v1, a0, d.room_id, v1 + dec_int(d.room_id).len());
    lemma_data_members_step(s, p1, a0, "RoomId"@, dec_int(d.room_id), a1);
    // ShortId
    lemma_dec_int_head(d.short_id);
    lemma_member_shape(s, p2, "ShortId"@, dec_int(d.short_id), ',');
    let v2 = p2 + quoted("ShortId"@).len() as int + 1;
    assert(!is_digit(s[v2 + dec_int(d.short_id).len()]));
    lemma_parse_number_of_dec(s, v2, d.short_id);
    let a2 = crate::decode::PartialData { short_id: Some(d.short_id), ..a1 };
    lemma_dispatch_short_id(s, v2, a1, d.short_id, v2 + dec_int(d.short_id).len());
    lemma_data_members_step(s, p2, a1, "ShortId"@, dec_int(d.short_id), a2);
    // Name
    lemma_member_shape(s, p3, "Name"@, quoted(d.name), ',');
    let v3 = p3 + quoted("Name"@).len() as int + 1;
    lemma_parse_string_of_quoted(s, v3, d.name);
    let a3 = crate::decode::PartialData { name: Some(d.name), ..a2 };
    lemma_dispatch_name(s, v3, a2, d.name, v3 + quoted(d.name).len());
    lemma_data_members_step(s, p3, a2, "Name"@, quoted(d.name), a3);
    // Title
    lemma_member_shape(s, p4, "Title"@, quoted(d.title), ',');
    let v4 = p4 + quoted("Title"@).len() as int + 1;
    lemma_parse_string_of_quoted(s, v4, d.title);
    let a4 = crate::decode::PartialData { title: Some(d.title), ..a3 };
    lemma_dispatch_title(s, v4, a3, d.title, v4 + quoted(d.title).len());
    lemma_data_members_step(s, p4, a3, "Title"@, quoted(d.title), a4);
    // AreaNameParent
    lemma_member_shape(s, p5, "AreaNameParent"@, quoted(d.area_name_parent), ',');
    let v5 = p5 + quoted("AreaNameParent"@).len() as int + 1;
    lemma_parse_string_of_quoted(s, v5, d.area_name_parent);
    let a5 = crate::decode::PartialData { area_name_parent: Some(d.area_name_parent), ..a4 };
    lemma_dispatch_area_name_parent(s, v5, a4, d.area_name_parent, v5 + quoted(d.area_name_parent).len());
    lemma_data_members_step(s, p5, a4, "AreaNameParent"@, quoted(d.area_name_parent), a5);
    // AreaNameChild
    lemma_member_shape(s, p6, "AreaNameChild"@, quoted(d.area_name_child), ',');
    let v6 = p6 + quoted("AreaNameChild"@).len() as int + 1;
    lemma_parse_string_of_quoted(s, v6, d.area_name_child);
    let a6 = crate::decode::PartialData { area_name_child: Some(d.area_name_child), ..a5 };
    lemma_dispatch_area_name_child(s, v6, a5, d.area_name_child, v6 + quoted(d.area_name_child).len());
    lemma_data_members_step(s, p6, a5, "AreaNameChild"@, quoted(d.area_name_child), a6);
    // Recording
    assert(!is_json_ws(bool_chars(d.recording)[0]));
    lemma_member_shape(s, p7, "Recording"@, bool_chars(d.recording), ',');
    let v7 = p7 + quoted("Recording"@).len() as int + 1;
    lemma_parse_bool_of_chars(s, v7, d.recording);
    let a7 = crate::decode::PartialData { recording: Some(d.recording), ..a6 };
    lemma_dispatch_recording(s, v7, a6, d.recording, v7 + bool_chars(d.recording).len());
    lemma_data_members_step(s, p7, a6, "Recording"@, bool_chars(d.recording), a7);
    // Streaming
    assert(!is_json_ws(bool_chars(d.streaming)[0]));
    lemma_member_shape(s, p8, "Streaming"@, bool_chars(d.streaming), ',');
    let v8 = p8 + quoted("Streaming"@).len() as int + 1;
    lemma_parse_bool_of_chars(s, v8, d.streaming);
    let a8 = crate::decode::PartialData { streaming: Some(d.streaming), ..a7 };
    lemma_dispatch_streaming(s, v8, a7, d.streaming, v8 + bool_chars(d.streaming).len());
    lemma_data_members_step(s, p8, a7, "Streaming"@, bool_chars(d.streaming), a8);
    // DanmakuConnected, closing the object
    assert(!is_json_ws(bool_chars(d.danmaku_connected)[0]));
    lemma_member_shape(s, p9, "DanmakuConnected"@, bool_chars(d.danmaku_connected), '}');
    let v9 = p9 + quoted("DanmakuConnected"@).len() as int + 1;
    lemma_parse_bool_of_chars(s, v9, d.danmaku_connected);
    let a9 = crate::decode::PartialData {
        danmaku_connected: Some(d.danmaku_connected),
        ..a8
    };
    lemma_dispatch_danmaku_connected(s, v9, a8, d.danmaku_connected, v9 + bool_chars(d.danmaku_connected).len());
    assert(finish_data(a9) == Some(d));
    lemma_data_members_close(
        s,
        p9,
        a8,
        "DanmakuConnected"@,
        bool_chars(d.danmaku_connected),
        a9,
        d,
    );
    // the object as a whole
    assert(s[i] == '{');
    lemma_ws_stay(s, p1);
    assert(spec_parse_data_obj(s, i) == Some((d, pe)));
}

/// One event member with a comma separator advances the member scan.
pub proof fn lemma_event_members_step(
    s: Seq<char>,
    i: int,
    a: crate::decode::PartialEvent,
    key: Seq<char>,
    value: Seq<char>,
    a2: crate::decode::PartialEvent,
)
    requires
        0 <= i,
        i + member(key, value, ',').len() < s.len(),
        s.subrange(i, i + member(key, value, ',').len() as int) == member(key, value, ','),
        value.len() > 0,
        !is_json_ws(value[0]),
        spec_event_field(s, i + quoted(key).len() + 1, key, a) == Some(
            (a2, i + quoted(key).len() + 1 + value.len() as int),
        ),
        s[i + member(key, value, ',').len()] == '"',
    ensures
        spec_event_members(s, i, a) == spec_event_members(
            s,
            i + member(key, value, ',').len() as int,
            a2,
        ),
{
    assert(!is_json_ws(','));
    lemma_member_shape(s, i, key, value, ',');
    let w = i + quoted(key).len() + 1 + value.len() as int;
    assert(s[w] == ',');
    lemma_ws_stay(s, w + 1);
}

/// The last event member, with the closing brace, finishes the event object.
pub proof fn lemma_event_members_close(
    s: Seq<char>,
    i: int,
    a: crate::decode::PartialEvent,
    key: Seq<char>,
    value: Seq<char>,
    a2: crate::decode::PartialEvent,
    e: EventView,
)
    requires
        0 <= i,
        i + member(key, value, '}').len() <= s.len(),
        s.subrange(i, i + member(key, value, '}').len() as int) == member(key, value, '}'),
        value.len() > 0,
        !is_json_ws(value[0]),
        spec_event_field(s, i + quoted(key).len() + 1, key, a) == Some(
            (a2, i + quoted(key).len() + 1 + value.len() as int),
        ),
        finish_event(a2) == Some(e),
    ensures
        spec_event_members(s, i, a) == Some((e, i + member(key, value, '}').len() as int)),
{
    assert(!is_json_ws('}'));
    lemma_member_shape(s, i, key, value, '}');
    let w = i + quoted(key).len() + 1 + value.len() as int;
    assert(s[w] == '}');
}

/// How `spec_event_field` extends the accumulator for each known key.
pub proof fn lemma_dispatch_event_type(
    s: Seq<char>,
    m: int,
    a: crate::decode::PartialEvent,
    txt: Seq<char>,
    n: int,
)
    requires
        a.event_type is None,
        spec_parse_string(s, m) == Some((txt, n)),
    ensures
        spec_event_field(s, m, "EventType"@, a) == Some(
            (crate::decode::PartialEvent { event_type: Some(txt), ..a }, n),
        ),
{
}

pub proof fn lemma_dispatch_event_timestamp(
    s: Seq<char>,
    m: int,
    a: crate::decode::PartialEvent,
    txt: Seq<char>,
    n: int,
)
    requires
        a.event_timestamp is None,
        spec_parse_string(s, m) == Some((txt, n)),
    ensures
        spec_event_field(s, m, "EventTimestamp"@, a) == Some(
            (crate::decode::PartialEvent { event_timestamp: Some(txt), ..a }, n),
        ),
{
    reveal_strlit("EventType");
    assert("EventType"@.len() == 9);
    reveal_strlit("EventTimestamp");
    assert("EventTimestamp"@.len() == 14);
    assert("EventTimestamp"@ != "EventType"@);
}

pub proof fn lemma_dispatch_event_id(
    s: Seq<char>,
    m: int,
    a: crate::decode::PartialEvent,
    txt: Seq<char>,
    n: int,
)
    requires
        a.event_id is None,
        spec_parse_string(s, m) == Some((txt, n)),
    ensures
        spec_event_field(s, m, "EventId"@, a) == Some(
            (crate::decode::PartialEvent { event_id: Some(txt), ..a }, n),
        ),
{
    reveal_strlit("EventType");
    assert("EventType"@.len() == 9);
    reveal_strlit("EventTimestamp");
    assert("EventTimestamp"@.len() == 14);
    reveal_strlit("EventId");
    assert("EventId"@.len() == 7);
    assert("EventId"@ != "EventType"@ && "EventId"@ != "EventTimestamp"@);
}

pub proof fn lemma_dispatch_event_data(
    s: Seq<char>,
    m: int,
    a: crate::decode::PartialEvent,
    d: EventDataView,
    n: int,
)
    requires
        a.event_data is None,
        spec_parse_data_obj(s, m) == Some((d, n)),
    ensures
        spec_event_field(s, m, "EventData"@, a) == Some(
            (crate::decode::PartialEvent { event_data: Some(d), ..a }, n),
        ),
{
    reveal_strlit("EventType");
    assert("EventType"@.len() == 9);
    reveal_strlit("EventTimestamp");
    assert("EventTimestamp"@.len() == 14);
    reveal_strlit("EventId");
    assert("EventId"@.len() == 7);
    reveal_strlit("EventData");
    assert("EventData"@.len() == 9);
    assert("EventData"@[5] == 'D' && "EventType"@[5] == 'T');
    assert("EventData"@ != "EventType"@ && "EventData"@ != "EventTimestamp"@ && "EventData"@
        != "EventId"@);
}

/// A parsed event object embedded in `s` at `i`, as the encoder writes it,
/// yields exactly the event it encodes.
#[verifier::rlimit(100)]
pub proof fn lemma_parse_event_of_encoded(s: Seq<char>, i: int, e: EventView)
    requires
        0 <= i,
        i + spec_encode_event(e).len() <= s.len(),
        s.subrange(i, i + spec_encode_event(e).len() as int) == spec_encode_event(e),
        i64::MIN <= e.event_data.room_id <= i64::MAX,
        i64::MIN <= e.event_data.short_id <= i64::MAX,
    ensures
        spec_parse_event(s, i) == Some((e, i + spec_encode_event(e).len())),
{
    let m1 = member("EventType"@, quoted(e.event_type), ',');
    let m2 = member("EventTimestamp"@, quoted(e.event_timestamp), ',');
    let m3 = member("EventId"@, quoted(e.event_id), ',');
    let m4 = member("EventData"@, spec_encode_event_data(e.event_data), '}');
    let enc = spec_encode_event(e);
    assert(enc == seq!['{'] + m1 + m2 + m3 + m4);
    lemma_subrange_split(s, i, seq!['{'] + m1 + m2 + m3, m4);
    lemma_subrange_split(s, i, seq!['{'] + m1 + m2, m3);
    lemma_subrange_split(s, i, seq!['{'] + m1, m2);
    lemma_subrange_split(s, i, seq!['{'], m1);
    lemma_subrange_chars(s, i, seq!['{']);
    let p1 = i + 1;
    let p2 = p1 + m1.len() as int;
    let p3 = p2 + m2.len() as int;
    let p4 = p3 + m3.len() as int;
    let pe = p4 + m4.len() as int;
    lemma_subrange_chars(s, p1, m1);
    lemma_subrange_chars(s, p2, m2);
    lemma_subrange_chars(s, p3, m3);
    lemma_subrange_chars(s, p4, m4);
    assert(s[p1] == '"');
    assert(s[p2] == '"');
    assert(s[p3] == '"');
    assert(s[p4] == '"');
    let a0 = empty_partial_event();
    // EventType
    lemma_member_shape(s, p1, "EventType"@, quoted(e.event_type), ',');
    let v1 = p1 + quoted("EventType"@).len() as int + 1;
    lemma_parse_string_of_quoted(s, v1, e.event_type);
    let a1 = crate::decode::PartialEvent { event_type: Some(e.event_type), ..a0 };
    lemma_dispatch_event_type(s, v1, a0, e.event_type, v1 + quoted(e.event_type).len());
    lemma_event_members_step(s, p1, a0, "EventType"@, quoted(e.event_type), a1);
    // EventTimestamp
    lemma_member_shape(s, p2, "EventTimestamp"@, quoted(e.event_timestamp), ',');
    let v2 = p2 + quoted("EventTimestamp"@).len() as int + 1;
    lemma_parse_string_of_quoted(s, v2, e.event_timestamp);
    let a2 = crate::decode::PartialEvent { event_timestamp: Some(e.event_timestamp), ..a1 };
    lemma_dispatch_event_timestamp(s, v2, a1, e.event_timestamp, v2 + quoted(e.event_timestamp).len());
    lemma_event_members_step(s, p2, a1, "EventTimestamp"@, quoted(e.event_timestamp), a2);
    // EventId
    lemma_member_shape(s, p3, "EventId"@, quoted(e.event_id), ',');
    let v3 = p3 + quoted("EventId"@).len() as int + 1;
    lemma_parse_string_of_quoted(s, v3, e.event_id);
    let a3 = crate::decode::PartialEvent { event_id: Some(e.event_id), ..a2 };
    lemma_dispatch_event_id(s, v3, a2, e.event_id, v3 + quoted(e.event_id).len());
    lemma_event_members_step(s, p3, a2, "EventId"@, quoted(e.event_id), a3);
    // EventData, closing the object
    let encd = spec_encode_event_data(e.event_data);
    assert(encd[0] == '{');
    assert(!is_json_ws(encd[0]));
    lemma_member_shape(s, p4, "EventData"@, encd, '}');
    let v4 = p4 + quoted("EventData"@).len() as int + 1;
    lemma_parse_data_of_encoded(s, v4, e.event_data);
    let a4 = crate::decode::PartialEvent { event_data: Some(e.event_data), ..a3 };
    lemma_dispatch_event_data(s, v4, a3, e.event_data, v4 + encd.len());
    assert(finish_event(a4) == Some(e));
    lemma_event_members_close(s, p4, a3, "EventData"@, encd, a4, e);
    // the object as a whole
    assert(s[i] == '{');
    lemma_ws_stay(s, p1);
    assert(spec_parse_event(s, i) == Some((e, pe)));
}

/// The round-trip law: a JSON text written by the encoder decodes back to
/// the event it came from, field for field.
pub proof fn lemma_encode_decode_round_trip(e: EventView)
    requires
        event_view_wf(e),
    ensures
        spec_decode(spec_encode_event(e)) == Some(e),
{
    let s = spec_encode_event(e);
    assert(s.subrange(0, s.len() as int) =~= s);
    lemma_parse_event_of_encoded(s, 0, e);
    assert(s[0] == '{');
    lemma_ws_stay(s, 0);
    lemma_ws_stay(s, s.len() as int);
}

} // verus!
