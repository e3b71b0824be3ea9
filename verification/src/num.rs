//! Decimal numbers in text: the parsing rules of `str::parse` for the integer
//! types and `bool`, and the formatting of `to_string` for integers.
use vstd::prelude::*;
use crate::text::{is_digit_spec, digit_value, lex_lt_spec};

verus! {

// ---------------------------------------------------------------------------
// Specification
// ---------------------------------------------------------------------------

pub open spec fn all_digits(s: Seq<char>) -> bool {
    forall|i: int| 0 <= i < s.len() ==> is_digit_spec(#[trigger] s[i])
}

/// The value of a string of decimal digits.
pub open spec fn digits_value(s: Seq<char>) -> nat
    decreases s.len(),
{
    if s.len() == 0 {
        0
    } else {
        (digits_value(s.drop_last()) * 10 + digit_value(s.last())) as nat
    }
}

/// The digits of an unsigned number in `str::parse` syntax: an optional `+`
/// followed by one or more ASCII digits.
pub open spec fn unsigned_digits(s: Seq<char>) -> Option<Seq<char>> {
    let b = if s.len() > 0 && s[0] == '+' {
        s.drop_first()
    } else {
        s
    };
    if b.len() > 0 && all_digits(b) {
        Some(b)
    } else {
        None
    }
}

/// The value of `s` as an unsigned number, whatever its size.
pub open spec fn parse_nat_spec(s: Seq<char>) -> Option<nat> {
    match unsigned_digits(s) {
        Some(b) => Some(digits_value(b)),
        None => None,
    }
}

/// The value of `s` as a signed number (optional `+` or `-`), whatever its size.
pub open spec fn parse_int_spec(s: Seq<char>) -> Option<int> {
    if s.len() > 0 && s[0] == '-' {
        let b = s.drop_first();
        if b.len() > 0 && all_digits(b) {
            Some(-(digits_value(b) as int))
        } else {
            None
        }
    } else {
        match parse_nat_spec(s) {
            Some(v) => Some(v as int),
            None => None,
        }
    }
}

/// `s.parse::<u64>().ok()`.
pub open spec fn parse_u64_spec(s: Seq<char>) -> Option<u64> {
    match parse_nat_spec(s) {
        Some(v) => if v <= u64::MAX {
            Some(v as u64)
        } else {
            None
        },
        None => None,
    }
}

/// `s.parse::<u32>().ok()`.
pub open spec fn parse_u32_spec(s: Seq<char>) -> Option<u32> {
    match parse_nat_spec(s) {
        Some(v) => if v <= u32::MAX {
            Some(v as u32)
        } else {
            None
        },
        None => None,
    }
}

/// `s.parse::<u16>().ok()`.
pub open spec fn parse_u16_spec(s: Seq<char>) -> Option<u16> {
    match parse_nat_spec(s) {
        Some(v) => if v <= u16::MAX {
            Some(v as u16)
        } else {
            None
        },
        None => None,
    }
}

/// `s.parse::<i64>().ok()`.
pub open spec fn parse_i64_spec(s: Seq<char>) -> Option<i64> {
    match parse_int_spec(s) {
        Some(v) => if i64::MIN <= v <= i64::MAX {
            Some(v as i64)
        } else {
            None
        },
        None => None,
    }
}

/// `s.parse::<i32>().ok()`.
pub open spec fn parse_i32_spec(s: Seq<char>) -> Option<i32> {
    match parse_int_spec(s) {
        Some(v) => if i32::MIN <= v <= i32::MAX {
            Some(v as i32)
        } else {
            None
        },
        None => None,
    }
}

/// `s.parse::<bool>().ok()`: exactly `true` or `false`.
pub open spec fn parse_bool_spec(s: Seq<char>) -> Option<bool> {
    if s == seq!['t', 'r', 'u', 'e'] {
        Some(true)
    } else if s == seq!['f', 'a', 'l', 's', 'e'] {
        Some(false)
    } else {
        None
    }
}

pub open spec fn digit_char(d: nat) -> char {
    ((d + 48) as u32) as char
}

/// The decimal digits of `n`, without leading zeros (`0` for zero).
pub open spec fn decimal_spec(n: nat) -> Seq<char>
    decreases n,
{
    if n < 10 {
        seq![digit_char(n)]
    } else {
        decimal_spec(n / 10).push(digit_char(n % 10))
    }
}

/// `n.to_string()` for a signed integer.
pub open spec fn int_text(n: int) -> Seq<char> {
    if n < 0 {
        seq!['-'] + decimal_spec((-n) as nat)
    } else {
        decimal_spec(n as nat)
    }
}

// ---------------------------------------------------------------------------
// Lemmas
// ---------------------------------------------------------------------------

proof fn lemma_digits_value_prefix_le(s: Seq<char>, j: int)
    requires
        0 <= j <= s.len(),
        all_digits(s),
    ensures
        digits_value(s.take(j)) <= digits_value(s),
    decreases s.len() - j,
{
    if j < s.len() {
        lemma_digits_value_prefix_le(s, j + 1);
        assert(s.take(j + 1).drop_last() =~= s.take(j));
        assert(s.take(j + 1).last() == s[j]);
        assert(is_digit_spec(s[j]));
    } else {
        assert(s.take(j) =~= s);
    }
}

proof fn lemma_digit_char(k: nat)
    requires
        k < 10,
    ensures
        is_digit_spec(digit_char(k)),
        digit_value(digit_char(k)) == k,
{
    assert((((k + 48) as u32) as char) as u32 == k + 48);
}

pub proof fn lemma_decimal_digits(n: nat)
    ensures
        decimal_spec(n).len() > 0,
        all_digits(decimal_spec(n)),
        digits_value(decimal_spec(n)) == n,
        is_digit_spec(decimal_spec(n)[0]),
    decreases n,
{
    lemma_digit_char(n % 10);
    if n < 10 {
        lemma_digit_char(n);
        let d = decimal_spec(n);
        assert(d.drop_last() =~= Seq::<char>::empty());
        assert(d.last() == digit_char(n));
        assert(digits_value(d) == digits_value(d.drop_last()) * 10 + digit_value(d.last()));
    } else {
        lemma_decimal_digits(n / 10);
        let d = decimal_spec(n);
        assert(n == (n / 10) * 10 + n % 10);
        assert(d.drop_last() =~= decimal_spec(n / 10));
        assert(d.last() == digit_char(n % 10));
        assert(d[0] == decimal_spec(n / 10)[0]);
        assert(digits_value(d) == digits_value(d.drop_last()) * 10 + digit_value(d.last()));
    }
}

/// Formatting a signed integer and parsing it back gives the same integer.
pub proof fn lemma_int_text_roundtrip(n: int)
    ensures
        parse_int_spec(int_text(n)) == Some(n),
{
    if n < 0 {
        let m = (-n) as nat;
        lemma_decimal_digits(m);
        let t = int_text(n);
        assert(t.drop_first() =~= decimal_spec(m));
    } else {
        lemma_decimal_digits(n as nat);
    }
}

/// Formatting an `i64` and parsing it back as an `i64` gives the same value.
pub proof fn lemma_i64_text_roundtrip(n: i64)
    ensures
        parse_i64_spec(int_text(n as int)) == Some(n),
{
    lemma_int_text_roundtrip(n as int);
}

// ---------------------------------------------------------------------------
// Parsing
// ---------------------------------------------------------------------------

/// The value of the digits `s[start..]`, if they are one or more digits and
/// the value is at most `bound`.
fn parse_digits(s: &[char], start: usize, bound: u64) -> (r: Option<u64>)
    requires
        start <= s@.len(),
    ensures
        ({
            let b = s@.skip(start as int);
            r == (if b.len() > 0 && all_digits(b) && digits_value(b) <= bound {
                Some(digits_value(b) as u64)
            } else {
                None
            })
        }),
{
    let ghost b = s@.skip(start as int);
    if start >= s.len() {
        return None;
    }
    let mut acc: u64 = 0;
    let mut i: usize = start;
    while i < s.len()
        invariant
            start <= i <= s@.len(),
            b == s@.skip(start as int),
            all_digits(b.take(i - start)),
            acc == digits_value(b.take(i - start)),
            acc <= bound,
        decreases s.len() - i,
    {
        let c = s[i];
        assert(b[i - start] == c);
        if !('0' <= c && c <= '9') {
            return None;
        }
        let d = (c as u32 - '0' as u32) as u64;
        let next: u128 = (acc as u128) * 10 + (d as u128);
        proof {
            assert(b.take(i + 1 - start).drop_last() =~= b.take(i - start));
            assert(b.take(i + 1 - start).last() == c);
        }
        if next > bound as u128 {
            proof {
                assert(digits_value(b.take(i + 1 - start)) == next);
                if all_digits(b) {
                    lemma_digits_value_prefix_le(b, i + 1 - start);
                }
            }
            return None;
        }
        acc = next as u64;
        i = i + 1;
        proof {
            assert forall|k: int| 0 <= k < b.take(i - start).len() implies is_digit_spec(
                #[trigger] b.take(i - start)[k],
            ) by {
                if k < i - 1 - start {
                    assert(b.take(i - start)[k] == b.take(i - 1 - start)[k]);
                }
            }
        }
    }
    assert(b.take(s@.len() - start) =~= b);
    Some(acc)
}

/// Parse an unsigned number no greater than `bound`.
fn parse_unsigned(s: &[char], bound: u64) -> (r: Option<u64>)
    ensures
        r == (match parse_nat_spec(s@) {
            Some(v) => if v <= bound {
                Some(v as u64)
            } else {
                None
            },
            None => None,
        }),
{
    if s.len() > 0 && s[0] == '+' {
        assert(s@.skip(1) =~= s@.drop_first());
        parse_digits(s, 1, bound)
    } else {
        assert(s@.skip(0) =~= s@);
        parse_digits(s, 0, bound)
    }
}

pub fn parse_u64(s: &[char]) -> (r: Option<u64>)
    ensures
        r == parse_u64_spec(s@),
{
    parse_unsigned(s, u64::MAX)
}

pub fn parse_u32(s: &[char]) -> (r: Option<u32>)
    ensures
        r == parse_u32_spec(s@),
{
    match parse_unsigned(s, u32::MAX as u64) {
        Some(v) => Some(v as u32),
        None => None,
    }
}

pub fn parse_u16(s: &[char]) -> (r: Option<u16>)
    ensures
        r == parse_u16_spec(s@),
{
    match parse_unsigned(s, u16::MAX as u64) {
        Some(v) => Some(v as u16),
        None => None,
    }
}

/// Parse a signed number in `[-neg_bound, pos_bound]`.
fn parse_signed(s: &[char], neg_bound: u64, pos_bound: u64) -> (r: Option<i128>)
    requires
        neg_bound <= 0x8000_0000_0000_0000,
    ensures
        r == (match parse_int_spec(s@) {
            Some(v) => if -(neg_bound as int) <= v <= pos_bound {
                Some(v as i128)
            } else {
                None
            },
            None => None,
        }),
{
    if s.len() > 0 && s[0] == '-' {
        assert(s@.skip(1) =~= s@.drop_first());
        match parse_digits(s, 1, neg_bound) {
            Some(v) => Some(-(v as i128)),
            None => {
                proof {
                    let b = s@.drop_first();
                    if b.len() > 0 && all_digits(b) {
                        assert(digits_value(b) > neg_bound);
                    }
                }
                None
            },
        }
    } else {
        match parse_unsigned(s, pos_bound) {
            Some(v) => Some(v as i128),
            None => None,
        }
    }
}

pub fn parse_i64(s: &[char]) -> (r: Option<i64>)
    ensures
        r == parse_i64_spec(s@),
{
    match parse_signed(s, 0x8000_0000_0000_0000, i64::MAX as u64) {
        Some(v) => Some(v as i64),
        None => None,
    }
}

pub fn parse_i32(s: &[char]) -> (r: Option<i32>)
    ensures
        r == parse_i32_spec(s@),
{
    match parse_signed(s, 0x8000_0000, i32::MAX as u64) {
        Some(v) => Some(v as i32),
        None => None,
    }
}

pub fn parse_bool(s: &[char]) -> (r: Option<bool>)
    ensures
        r == parse_bool_spec(s@),
{
    if s.len() == 4 && s[0] == 't' && s[1] == 'r' && s[2] == 'u' && s[3] == 'e' {
        assert(s@ =~= seq!['t', 'r', 'u', 'e']);
        Some(true)
    } else if s.len() == 5 && s[0] == 'f' && s[1] == 'a' && s[2] == 'l' && s[3] == 's' && s[4]
        == 'e' {
        assert(s@ =~= seq!['f', 'a', 'l', 's', 'e']);
        Some(false)
    } else {
        proof {
            if s@ == seq!['t', 'r', 'u', 'e'] {
                assert(s@[0] == 't' && s@[1] == 'r' && s@[2] == 'u' && s@[3] == 'e');
            }
            if s@ == seq!['f', 'a', 'l', 's', 'e'] {
                assert(s@[0] == 'f' && s@[1] == 'a' && s@[2] == 'l' && s@[3] == 's' && s@[4] == 'e');
            }
        }
        None
    }
}

// ---------------------------------------------------------------------------
// Formatting
// ---------------------------------------------------------------------------

fn push_decimal(n: u64, out: &mut Vec<char>)
    ensures
        final(out)@ == old(out)@ + decimal_spec(n as nat),
    decreases n,
{
    if n >= 10 {
        push_decimal(n / 10, out);
    }
    let d = (n % 10) as u8;
    out.push((d + 48) as char);
    proof {
        assert(((d + 48) as char) == digit_char((n % 10) as nat));
    }
    assert(final(out)@ =~= old(out)@ + decimal_spec(n as nat));
}

/// `n.to_string()`, as characters.
pub fn i64_chars(n: i64) -> (v: Vec<char>)
    ensures
        v@ == int_text(n as int),
{
    let mut v: Vec<char> = Vec::new();
    if n < 0 {
        v.push('-');
        let m: u64 = (-(n as i128)) as u64;
        push_decimal(m, &mut v);
        assert(v@ =~= int_text(n as int));
    } else {
        push_decimal(n as u64, &mut v);
        assert(v@ =~= int_text(n as int));
    }
    v
}

/// `n.to_string()` for an unsigned integer, as characters.
pub fn u64_chars(n: u64) -> (v: Vec<char>)
    ensures
        v@ == decimal_spec(n as nat),
{
    let mut v: Vec<char> = Vec::new();
    push_decimal(n, &mut v);
    assert(v@ =~= decimal_spec(n as nat));
    v
}

// ---------------------------------------------------------------------------
// Order of decimal texts
// ---------------------------------------------------------------------------

/// `10^n`.
pub open spec fn pow10(n: nat) -> nat
    decreases n,
{
    if n == 0 {
        1
    } else {
        10 * pow10((n - 1) as nat)
    }
}

proof fn lemma_digits_value_front(s: Seq<char>)
    requires
        s.len() > 0,
        all_digits(s),
    ensures
        digits_value(s) == digit_value(s[0]) * pow10((s.len() - 1) as nat) + digits_value(
            s.drop_first(),
        ),
    decreases s.len(),
{
    let n = s.len();
    if n == 1 {
        assert(s.drop_last() =~= Seq::<char>::empty());
        assert(s.drop_first() =~= Seq::<char>::empty());
        assert(digits_value(s) == digits_value(s.drop_last()) * 10 + digit_value(s.last()));
        assert(pow10(0) == 1);
        assert(digit_value(s[0]) * pow10(0) == digit_value(s[0]));
    } else {
        let d = s.drop_last();
        assert(all_digits(d));
        lemma_digits_value_front(d);
        assert(d[0] == s[0]);
        assert(d.drop_first() =~= s.drop_first().drop_last());
        assert(s.drop_first().last() == s.last());
        let p = pow10((n - 2) as nat);
        let d0 = digit_value(s[0]);
        let r = digits_value(s.drop_first().drop_last());
        assert(pow10((n - 1) as nat) == 10 * p);
        let c = digit_value(s.last());
        assert(digits_value(d) == d0 * p + r);
        assert(digits_value(s) == digits_value(d) * 10 + c);
        assert(digits_value(s.drop_first()) == r * 10 + c);
        assert((d0 * p + r) * 10 == d0 * (10 * p) + r * 10) by (nonlinear_arith);
        assert(d0 * (10 * p) == d0 * pow10((n - 1) as nat));
    }
}

proof fn lemma_digits_value_bound(s: Seq<char>)
    requires
        all_digits(s),
    ensures
        digits_value(s) < pow10(s.len()),
    decreases s.len(),
{
    if s.len() > 0 {
        let d = s.drop_last();
        assert(all_digits(d));
        lemma_digits_value_bound(d);
        assert(is_digit_spec(s.last()));
        let v = digits_value(d);
        let p = pow10(d.len());
        assert(pow10(s.len()) == 10 * p);
        assert(v * 10 + 9 < 10 * p) by (nonlinear_arith)
            requires
                v < p,
        ;
    }
}

/// For digit strings of one length, `<` as strings is `<` of their values.
pub proof fn lemma_lex_lt_digits(a: Seq<char>, b: Seq<char>)
    requires
        all_digits(a),
        all_digits(b),
        a.len() == b.len(),
    ensures
        lex_lt_spec(a, b) <==> digits_value(a) < digits_value(b),
    decreases a.len(),
{
    if a.len() > 0 {
        lemma_digits_value_front(a);
        lemma_digits_value_front(b);
        let ra = a.drop_first();
        let rb = b.drop_first();
        assert(all_digits(ra));
        assert(all_digits(rb));
        lemma_digits_value_bound(ra);
        lemma_digits_value_bound(rb);
        lemma_lex_lt_digits(ra, rb);
        let p = pow10(ra.len());
        let da = digit_value(a[0]);
        let db = digit_value(b[0]);
        let va = digits_value(ra) as int;
        let vb = digits_value(rb) as int;
        assert(is_digit_spec(a[0]) && is_digit_spec(b[0]));
        if da < db {
            assert(da * p + va < db * p + vb) by (nonlinear_arith)
                requires
                    da < db,
                    0 <= va < p,
                    0 <= vb,
            ;
        } else if db < da {
            assert(db * p + vb < da * p + va) by (nonlinear_arith)
                requires
                    db < da,
                    0 <= vb < p,
                    0 <= va,
            ;
        }
    }
}

/// A number from `10^(k-1)` up to `10^k - 1` is written with `k` digits.
pub proof fn lemma_decimal_len(n: nat, k: nat)
    requires
        k >= 1,
        pow10((k - 1) as nat) <= n < pow10(k),
    ensures
        decimal_spec(n).len() == k,
    decreases k,
{
    if k == 1 {
        assert(pow10(1) == 10 * pow10(0));
    } else {
        let p = pow10((k - 2) as nat);
        assert(pow10((k - 1) as nat) == 10 * p);
        assert(pow10(k) == 10 * pow10((k - 1) as nat));
        let q = pow10((k - 1) as nat);
        assert(p >= 1) by {
            lemma_pow10_positive((k - 2) as nat);
        }
        assert(p <= n / 10 < q) by (nonlinear_arith)
            requires
                10 * p <= n < 10 * q,
                p >= 1,
        ;
        assert(n >= 10);
        lemma_decimal_len(n / 10, (k - 1) as nat);
    }
}

proof fn lemma_pow10_positive(k: nat)
    ensures
        pow10(k) >= 1,
    decreases k,
{
    if k > 0 {
        lemma_pow10_positive((k - 1) as nat);
    }
}

/// For non-negative numbers written with the same number of digits, the
/// order of their texts is the order of the numbers.
pub proof fn lemma_decimal_order(m: nat, n: nat)
    requires
        decimal_spec(m).len() == decimal_spec(n).len(),
    ensures
        lex_lt_spec(decimal_spec(m), decimal_spec(n)) <==> m < n,
{
    lemma_decimal_digits(m);
    lemma_decimal_digits(n);
    lemma_lex_lt_digits(decimal_spec(m), decimal_spec(n));
}

} // verus!
