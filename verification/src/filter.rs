//! The optional room allow-list: parsing the comma-separated configuration
//! text and the membership test applied to each event.

use vstd::prelude::*;
use crate::num::all_digits;
use crate::num::digit_val;
use crate::num::digits_val;
use crate::num::is_digit;
use crate::num::lemma_digits_val_nonneg;
use crate::num::lemma_digits_val_prefix;
use crate::text::str_to_chars;

verus! {

/// Position of the first comma at or after `i`, or the length when none.
pub open spec fn first_comma(s: Seq<char>, i: int) -> int
    decreases s.len() - i,
{
    if 0 <= i < s.len() {
        if s[i] == ',' {
            i
        } else {
            first_comma(s, i + 1)
        }
    } else {
        i
    }
}

proof fn lemma_first_comma_is(s: Seq<char>, i: int, j: int)
    requires
        0 <= i <= j <= s.len(),
        forall|k: int| i <= k < j ==> s[k] != ',',
        j < s.len() ==> s[j] == ',',
    ensures
        first_comma(s, i) == j,
    decreases j - i,
{
    if i < j {
        lemma_first_comma_is(s, i + 1, j);
    }
}

/// The numeric value of one comma-separated entry, when it parses as a `u32`:
/// an optional leading plus sign, then at least one digit, value within range.
pub open spec fn entry_val(seg: Seq<char>) -> Option<u32> {
    let body = if seg.len() > 0 && seg[0] == '+' {
        seg.drop_first()
    } else {
        seg
    };
    if body.len() > 0 && all_digits(body) && digits_val(body) <= u32::MAX {
        Some(digits_val(body) as u32)
    } else {
        None
    }
}

/// The room identifiers drawn from the configuration text at and after `i`:
/// one entry per comma-separated segment, entries that do not parse dropped.
pub open spec fn room_filter_from(s: Seq<char>, i: int) -> Seq<u32>
    decreases s.len() - i,
{
    let j = first_comma(s, i);
    let head = match entry_val(s.subrange(i, j)) {
        Some(v) => seq![v],
        None => Seq::<u32>::empty(),
    };
    if i <= j && j < s.len() {
        head + room_filter_from(s, j + 1)
    } else {
        head
    }
}

/// The rooms listed by the whole configuration text.
pub open spec fn spec_room_filter(s: Seq<char>) -> Seq<u32> {
    room_filter_from(s, 0)
}

/// Parse one entry spanning `v[from..to]`.
#[verifier::loop_isolation(false)]
fn parse_entry(v: &Vec<char>, from: usize, to: usize) -> (r: Option<u32>)
    requires
        from <= to <= v@.len(),
    ensures
        r == entry_val(v@.subrange(from as int, to as int)),
{
    let ghost seg = v@.subrange(from as int, to as int);
    let mut k = from;
    if from < to && v[from] == '+' {
        k = from + 1;
    }
    let ghost body = if seg.len() > 0 && seg[0] == '+' {
        seg.drop_first()
    } else {
        seg
    };
    assert(body =~= v@.subrange(k as int, to as int));
    if k == to {
        assert(body.len() == 0);
        return None;
    }
    let mut acc: u64 = 0;
    let mut p = k;
    while p < to
        invariant
            k <= p <= to <= v@.len(),
            body =~= v@.subrange(k as int, to as int),
            all_digits(body.take((p - k) as int)),
            acc == digits_val(body.take((p - k) as int)),
            acc <= u32::MAX,
        decreases to - p,
    {
        let cv = v[p] as u32;
        let ghost m = (p - k) as int;
        assert(body[m] == v@[p as int]);
        if cv < 48 || cv > 57 {
            assert(!all_digits(body)) by {
                assert(0 <= m < body.len());
                assert(!is_digit(body[m]));
            }
            assert(entry_val(v@.subrange(from as int, to as int)) is None);
            return None;
        }
        assert(is_digit(body[m]));
        let d = (cv - 48) as u64;
        let acc2: u64 = acc * 10 + d;
        proof {
            assert(body.take(m + 1).drop_last() =~= body.take(m));
            assert(body.take(m + 1).last() == body[m]);
            assert(all_digits(body.take(m + 1)));
            assert(digits_val(body.take(m + 1)) == digits_val(body.take(m)) * 10 + digit_val(
                body[m],
            ));
        }
        if acc2 > 0xffff_ffff {
            proof {
                if all_digits(body) {
                    lemma_digits_val_prefix(body, m + 1);
                    assert(digits_val(body) >= digits_val(body.take(m + 1)));
                    assert(digits_val(body.take(m + 1)) == acc2);
                    assert(digits_val(body) > u32::MAX);
                }
                assert(entry_val(v@.subrange(from as int, to as int)) is None);
            }
            return None;
        }
        acc = acc2;
        p = p + 1;
    }
    assert(body.take((to - k) as int) =~= body);
    proof {
        lemma_digits_val_nonneg(body);
    }
    Some(acc as u32)
}

/// Parse the comma-separated room-filter configuration text; entries that do
/// not parse as unsigned integers are silently dropped.
pub fn parse_room_filter(s: &str) -> (r: Vec<u32>)
    ensures
        r@ == spec_room_filter(s@),
{
    let v = str_to_chars(s);
    let n = v.len();
    let mut out: Vec<u32> = Vec::new();
    let mut i: usize = 0;
    loop
        invariant
            0 <= i <= n,
            n == v@.len(),
            v@ == s@,
            spec_room_filter(s@) == out@ + room_filter_from(v@, i as int),
        decreases n - i,
    {
        let mut j = i;
        while j < n && v[j] != ','
            invariant
                i <= j <= n,
                n == v@.len(),
                forall|k: int| i <= k < j ==> v@[k] != ',',
            decreases n - j,
        {
            j = j + 1;
        }
        proof {
            lemma_first_comma_is(v@, i as int, j as int);
        }
        let ghost head = match entry_val(v@.subrange(i as int, j as int)) {
            Some(x) => seq![x],
            None => Seq::<u32>::empty(),
        };
        match parse_entry(&v, i, j) {
            Some(x) => {
                out.push(x);
            },
            None => (),
        }
        if j < n {
            assert(room_filter_from(v@, i as int) == head + room_filter_from(v@, j as int + 1));
            i = j + 1;
        } else {
            assert(room_filter_from(v@, i as int) == head);
            assert(out@ =~= spec_room_filter(s@));
            return out;
        }
    }
}

/// The spec-level view of an optional filter.
pub open spec fn filter_view(f: &Option<Vec<u32>>) -> Option<Seq<u32>> {
    match f {
        None => None,
        Some(v) => Some(v@),
    }
}

/// True when no filter is configured, or the filter lists the event's room
/// identifier narrowed to the filter's unsigned 32-bit width (truncating).
pub open spec fn spec_allows(filter: Option<Seq<u32>>, room_id: int) -> bool {
    match filter {
        None => true,
        Some(f) => f.contains(room_id as u32),
    }
}

fn contains_u32(f: &Vec<u32>, x: u32) -> (r: bool)
    ensures
        r == f@.contains(x),
{
    let mut k: usize = 0;
    while k < f.len()
        invariant
            0 <= k <= f@.len(),
            forall|j: int| 0 <= j < k ==> f@[j] != x,
        decreases f@.len() - k,
    {
        if f[k] == x {
            assert(f@[k as int] == x);
            return true;
        }
        k = k + 1;
    }
    assert(!f@.contains(x));
    false
}

/// Whether the configured filter lets the event's room pass.
pub fn filter_allows(filter: &Option<Vec<u32>>, room_id: i64) -> (r: bool)
    ensures
        r == spec_allows(filter_view(filter), room_id as int),
{
    match filter {
        None => true,
        Some(f) => {
            let key = #[verifier::truncate] (room_id as u32);
            contains_u32(f, key)
        },
    }
}

} // verus!
