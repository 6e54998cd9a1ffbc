//! Decimal and hexadecimal digit arithmetic shared by the JSON codec and the
//! room-filter configuration parser.

use vstd::prelude::*;

verus! {

/// The ten ASCII digit characters.
pub open spec fn is_digit(c: char) -> bool {
    48 <= c as u32 && c as u32 <= 57
}

/// Numeric value of an ASCII digit character.
pub open spec fn digit_val(c: char) -> int {
    c as u32 - 48
}

/// The digit character for a value below ten.
pub open spec fn digit_char(d: int) -> char {
    if d == 0 {
        '0'
    } else if d == 1 {
        '1'
    } else if d == 2 {
        '2'
    } else if d == 3 {
        '3'
    } else if d == 4 {
        '4'
    } else if d == 5 {
        '5'
    } else if d == 6 {
        '6'
    } else if d == 7 {
        '7'
    } else if d == 8 {
        '8'
    } else {
        '9'
    }
}

/// Decimal digits of a natural number, most significant first, no leading zeros.
pub open spec fn dec_nat(n: nat) -> Seq<char>
    decreases n,
{
    if n < 10 {
        seq![digit_char(n as int)]
    } else {
        dec_nat(n / 10) + seq![digit_char((n % 10) as int)]
    }
}

/// Decimal notation of an integer: a minus sign for negative values, then the digits.
pub open spec fn dec_int(v: int) -> Seq<char> {
    if v < 0 {
        seq!['-'] + dec_nat((-v) as nat)
    } else {
        dec_nat(v as nat)
    }
}

/// Every character of the sequence is an ASCII digit.
pub open spec fn all_digits(ds: Seq<char>) -> bool {
    forall|k: int| 0 <= k < ds.len() ==> is_digit(#[trigger] ds[k])
}

/// The value of a digit sequence read in base ten.
pub open spec fn digits_val(ds: Seq<char>) -> int
    decreases ds.len(),
{
    if ds.len() == 0 {
        0
    } else {
        digits_val(ds.drop_last()) * 10 + digit_val(ds.last())
    }
}

pub open spec fn pow10(k: nat) -> nat
    decreases k,
{
    if k == 0 {
        1
    } else {
        10 * pow10((k - 1) as nat)
    }
}

/// Greedily read digits starting at `i`, folding them onto `acc`;
/// result is the folded value and the position of the first non-digit.
pub open spec fn parse_digits_from(s: Seq<char>, i: int, acc: int) -> (int, int)
    decreases s.len() - i,
{
    if 0 <= i < s.len() && is_digit(s[i]) {
        parse_digits_from(s, i + 1, acc * 10 + digit_val(s[i]))
    } else {
        (acc, i)
    }
}

pub proof fn lemma_dec_nat_facts(n: nat)
    ensures
        dec_nat(n).len() >= 1,
        all_digits(dec_nat(n)),
        digits_val(dec_nat(n)) == n,
        n > 0 ==> dec_nat(n)[0] != '0',
        n >= 10 ==> dec_nat(n).len() >= 2,
    decreases n,
{
    if n < 10 {
        let ds = dec_nat(n);
        assert(ds.drop_last() =~= Seq::<char>::empty());
        assert(digits_val(ds.drop_last()) == 0);
        assert(digits_val(ds) == 0 * 10 + digit_val(digit_char(n as int)));
    } else {
        lemma_dec_nat_facts(n / 10);
        let a = dec_nat(n / 10);
        let d = digit_char((n % 10) as int);
        assert((a + seq![d]).drop_last() =~= a);
        assert((a + seq![d]).last() == d);
        assert(digits_val(dec_nat(n)) == digits_val(a) * 10 + digit_val(d));
        assert(n / 10 * 10 + n % 10 == n);
        assert(dec_nat(n)[0] == a[0]);
    }
}

/// Reading the decimal digits of `n` embedded in `s` folds exactly `n` onto
/// the accumulator and stops right after them.
pub proof fn lemma_parse_digits_of_dec(s: Seq<char>, i: int, acc: int, n: nat)
    requires
        0 <= i,
        i + dec_nat(n).len() <= s.len(),
        s.subrange(i, i + dec_nat(n).len() as int) == dec_nat(n),
    ensures
        parse_digits_from(s, i, acc) == parse_digits_from(
            s,
            i + dec_nat(n).len() as int,
            acc * pow10(dec_nat(n).len()) as int + n,
        ),
    decreases n,
{
    if n < 10 {
        assert(s[i] == dec_nat(n)[0]);
        assert(is_digit(s[i]) && digit_val(s[i]) == n);
        assert(pow10(0) == 1);
        assert(pow10(1) == 10);
        assert(parse_digits_from(s, i, acc) == parse_digits_from(s, i + 1, acc * 10 + n));
    } else {
        let a = dec_nat(n / 10);
        let la = a.len() as int;
        let d = digit_char((n % 10) as int);
        assert(dec_nat(n) == a + seq![d]);
        assert(s.subrange(i, i + la) =~= a) by {
            assert forall|k: int| 0 <= k < la implies s.subrange(i, i + la)[k] == a[k] by {
                assert(s.subrange(i, i + dec_nat(n).len() as int)[k] == dec_nat(n)[k]);
            }
        }
        lemma_parse_digits_of_dec(s, i, acc, n / 10);
        let x = acc * pow10(a.len()) as int + n / 10;
        assert(s[i + la] == dec_nat(n)[la]);
        assert(is_digit(s[i + la]) && digit_val(s[i + la]) == n % 10);
        assert(parse_digits_from(s, i + la, x) == parse_digits_from(
            s,
            i + la + 1,
            x * 10 + n % 10,
        ));
        assert(x * 10 + n % 10 == acc * pow10(dec_nat(n).len()) as int + n) by (nonlinear_arith)
            requires
                x == acc * pow10(a.len()) as int + n / 10,
                pow10((a.len() + 1) as nat) == 10 * pow10(a.len()),
                dec_nat(n).len() == a.len() + 1,
                n / 10 * 10 + n % 10 == n,
        {
        }
    }
}

/// The value of a digit sequence is not negative.
pub proof fn lemma_digits_val_nonneg(ds: Seq<char>)
    requires
        all_digits(ds),
    ensures
        digits_val(ds) >= 0,
    decreases ds.len(),
{
    if ds.len() > 0 {
        assert(all_digits(ds.drop_last()));
        lemma_digits_val_nonneg(ds.drop_last());
        assert(is_digit(ds[ds.len() - 1]));
    }
}

/// A digit sequence's value only grows as digits are appended.
pub proof fn lemma_digits_val_prefix(ds: Seq<char>, m: int)
    requires
        all_digits(ds),
        0 <= m <= ds.len(),
    ensures
        digits_val(ds) >= digits_val(ds.take(m)) >= 0,
    decreases ds.len(),
{
    if m == ds.len() {
        assert(ds.take(m) =~= ds);
        lemma_digits_val_nonneg(ds);
    } else {
        let dl = ds.drop_last();
        assert(all_digits(dl));
        assert(dl.take(m) =~= ds.take(m));
        lemma_digits_val_prefix(dl, m);
        lemma_digits_val_nonneg(dl);
        assert(is_digit(ds[ds.len() - 1]));
        assert(digits_val(ds) == digits_val(dl) * 10 + digit_val(ds.last()));
    }
}

/// Folding further digits onto a non-negative accumulator never shrinks it,
/// and the end position never moves backwards.
pub proof fn lemma_parse_digits_ge(s: Seq<char>, i: int, acc: int)
    requires
        acc >= 0,
    ensures
        parse_digits_from(s, i, acc).0 >= acc,
        parse_digits_from(s, i, acc).1 >= i,
    decreases s.len() - i,
{
    if 0 <= i < s.len() && is_digit(s[i]) {
        lemma_parse_digits_ge(s, i + 1, acc * 10 + digit_val(s[i]));
    }
}

// ---------- hexadecimal ----------

/// ASCII hexadecimal digit characters, either case.
pub open spec fn is_hex(c: char) -> bool {
    is_digit(c) || (97 <= c as u32 && c as u32 <= 102) || (65 <= c as u32 && c as u32 <= 70)
}

/// Numeric value of a hexadecimal digit character.
pub open spec fn hex_val(c: char) -> int {
    if is_digit(c) {
        digit_val(c)
    } else if 97 <= c as u32 && c as u32 <= 102 {
        c as u32 - 87
    } else {
        c as u32 - 55
    }
}

/// The lower-case hexadecimal digit character for a value below sixteen.
pub open spec fn hex_digit_char(d: int) -> char {
    if d < 10 {
        digit_char(d)
    } else if d == 10 {
        'a'
    } else if d == 11 {
        'b'
    } else if d == 12 {
        'c'
    } else if d == 13 {
        'd'
    } else if d == 14 {
        'e'
    } else {
        'f'
    }
}

pub proof fn lemma_hex_digit_char(d: int)
    requires
        0 <= d < 16,
    ensures
        is_hex(hex_digit_char(d)),
        hex_val(hex_digit_char(d)) == d,
{
}

// ---------- executable counterparts ----------

pub fn digit_char_exec(d: u8) -> (c: char)
    requires
        d < 10,
    ensures
        c == digit_char(d as int),
{
    if d == 0 {
        '0'
    } else if d == 1 {
        '1'
    } else if d == 2 {
        '2'
    } else if d == 3 {
        '3'
    } else if d == 4 {
        '4'
    } else if d == 5 {
        '5'
    } else if d == 6 {
        '6'
    } else if d == 7 {
        '7'
    } else if d == 8 {
        '8'
    } else {
        '9'
    }
}

pub fn hex_digit_char_exec(d: u8) -> (c: char)
    requires
        d < 16,
    ensures
        c == hex_digit_char(d as int),
{
    if d < 10 {
        digit_char_exec(d)
    } else if d == 10 {
        'a'
    } else if d == 11 {
        'b'
    } else if d == 12 {
        'c'
    } else if d == 13 {
        'd'
    } else if d == 14 {
        'e'
    } else {
        'f'
    }
}

/// The decimal digits of `n`, most significant first.
pub fn u64_digits(n: u64) -> (r: Vec<char>)
    ensures
        r@ == dec_nat(n as nat),
    decreases n,
{
    if n < 10 {
        let mut v: Vec<char> = Vec::new();
        v.push(digit_char_exec(n as u8));
        assert(v@ =~= dec_nat(n as nat));
        v
    } else {
        let mut v = u64_digits(n / 10);
        v.push(digit_char_exec((n % 10) as u8));
        assert(v@ =~= dec_nat(n as nat));
        v
    }
}

/// Decimal notation of `v` as characters, with a leading minus sign when negative.
pub fn i64_to_chars(v: i64) -> (r: Vec<char>)
    ensures
        r@ == dec_int(v as int),
{
    if v >= 0 {
        u64_digits(v as u64)
    } else {
        let mag: u64 = (-(v as i128)) as u64;
        let ds = u64_digits(mag);
        let mut out: Vec<char> = Vec::new();
        out.push('-');
        let mut k: usize = 0;
        while k < ds.len()
            invariant
                0 <= k <= ds.len(),
                ds@ == dec_nat(mag as nat),
                mag == -(v as int),
                out@ == seq!['-'] + ds@.take(k as int),
            decreases ds.len() - k,
        {
            out.push(ds[k]);
            assert(out@ =~= seq!['-'] + ds@.take(k as int + 1));
            k = k + 1;
        }
        assert(ds@.take(ds@.len() as int) =~= ds@);
        out
    }
}

} // verus!
