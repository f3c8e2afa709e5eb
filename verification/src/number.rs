//! Decimal number parsing over character sequences.

use crate::text::{extend_range, slice, string_of};
use vstd::prelude::*;

verus! {

/// Whether `c` is an ASCII decimal digit.
pub open spec fn is_digit(c: char) -> bool {
    '0' <= c <= '9'
}

/// The value of the decimal digit `c`.
pub open spec fn digit_value(c: char) -> nat {
    (c as u32 - '0' as u32) as nat
}

/// Whether every character of `s` is a decimal digit.
pub open spec fn all_digits(s: Seq<char>) -> bool {
    forall|i: int| 0 <= i < s.len() ==> is_digit(#[trigger] s[i])
}

/// The number that the digit string `s` denotes in base ten.
pub open spec fn digits_value(s: Seq<char>) -> nat
    decreases s.len(),
{
    if s.len() == 0 {
        0
    } else {
        digits_value(s.drop_last()) * 10 + digit_value(s.last())
    }
}

/// The integer that `s` denotes as an optional sign followed by one or more
/// decimal digits; `None` when `s` has another shape.
pub open spec fn signed_decimal(s: Seq<char>) -> Option<int> {
    if s.len() > 0 && (s[0] == '-' || s[0] == '+') {
        let d = s.subrange(1, s.len() as int);
        if d.len() > 0 && all_digits(d) {
            if s[0] == '-' {
                Some(-(digits_value(d) as int))
            } else {
                Some(digits_value(d) as int)
            }
        } else {
            None
        }
    } else if s.len() > 0 && all_digits(s) {
        Some(digits_value(s) as int)
    } else {
        None
    }
}

/// The integer that `s` denotes for an unsigned type: as [`signed_decimal`],
/// but a leading `-` is never accepted.
pub open spec fn unsigned_decimal(s: Seq<char>) -> Option<int> {
    if s.len() > 0 && s[0] == '-' {
        None
    } else {
        signed_decimal(s)
    }
}

pub open spec fn parsed_i64(s: Seq<char>) -> Option<i64> {
    match signed_decimal(s) {
        Some(v) => if i64::MIN <= v <= i64::MAX {
            Some(v as i64)
        } else {
            None
        },
        None => None,
    }
}

pub open spec fn parsed_i32(s: Seq<char>) -> Option<i32> {
    match signed_decimal(s) {
        Some(v) => if i32::MIN <= v <= i32::MAX {
            Some(v as i32)
        } else {
            None
        },
        None => None,
    }
}

pub open spec fn parsed_u64(s: Seq<char>) -> Option<u64> {
    match unsigned_decimal(s) {
        Some(v) => if 0 <= v <= u64::MAX {
            Some(v as u64)
        } else {
            None
        },
        None => None,
    }
}

pub open spec fn parsed_u32(s: Seq<char>) -> Option<u32> {
    match unsigned_decimal(s) {
        Some(v) => if 0 <= v <= u32::MAX {
            Some(v as u32)
        } else {
            None
        },
        None => None,
    }
}

/// A digit string never denotes less than one of its prefixes.
pub proof fn lemma_digits_prefix(s: Seq<char>, k: int)
    requires
        0 <= k <= s.len(),
    ensures
        digits_value(s.subrange(0, k)) <= digits_value(s),
    decreases s.len() - k,
{
    if k == s.len() {
        assert(s.subrange(0, k) =~= s);
    } else {
        lemma_digits_prefix(s, k + 1);
        assert(s.subrange(0, k + 1).drop_last() =~= s.subrange(0, k));
    }
}

/// Tests whether `c` is a decimal digit.
pub fn is_ascii_digit(c: char) -> (r: bool)
    ensures
        r == is_digit(c),
{
    '0' <= c && c <= '9'
}

/// Reads `v[from..]` as a non-empty run of decimal digits whose value fits
/// in a `u64`.
pub fn parse_magnitude(v: &Vec<char>, from: usize) -> (r: Option<u64>)
    requires
        from <= v.len(),
    ensures
        ({
            let d = v@.subrange(from as int, v@.len() as int);
            match r {
                Some(m) => d.len() > 0 && all_digits(d) && digits_value(d) == m,
                None => !(d.len() > 0 && all_digits(d) && digits_value(d) <= u64::MAX),
            }
        }),
{
    let ghost d = v@.subrange(from as int, v@.len() as int);
    if from == v.len() {
        return None;
    }
    let mut acc: u64 = 0;
    let mut i: usize = from;
    while i < v.len()
        invariant
            from <= i <= v.len(),
            d == v@.subrange(from as int, v@.len() as int),
            all_digits(d.subrange(0, i - from)),
            acc == digits_value(d.subrange(0, i - from)),
        decreases v.len() - i,
    {
        let c = v[i];
        if !is_ascii_digit(c) {
            assert(!is_digit(d[i - from]));
            return None;
        }
        let dv: u64 = (c as u32 - '0' as u32) as u64;
        let ghost next = d.subrange(0, i - from + 1);
        assert(next.drop_last() =~= d.subrange(0, i - from));
        assert(next.last() == c);
        if acc > (u64::MAX - dv) / 10 {
            proof {
                if all_digits(d) {
                    lemma_digits_prefix(d, i - from + 1);
                }
            }
            return None;
        }
        acc = acc * 10 + dv;
        i = i + 1;
        assert forall|j: int| 0 <= j < next.len() implies is_digit(#[trigger] next[j]) by {
            if j < next.len() - 1 {
                assert(next[j] == d.subrange(0, i - from - 1)[j]);
            }
        }
    }
    assert(d.subrange(0, i - from) =~= d);
    Some(acc)
}

/// Reads `v` as a signed decimal integer; the flag says whether a leading
/// `-` is accepted. The result is the sign (true for negative) and the
/// magnitude.
fn parse_signed_parts(v: &Vec<char>, allow_minus: bool) -> (r: Option<(bool, u64)>)
    ensures
        ({
            let d = if allow_minus {
                signed_decimal(v@)
            } else {
                unsigned_decimal(v@)
            };
            match r {
                Some((neg, m)) => d == Some(
                    if neg {
                        -(m as int)
                    } else {
                        m as int
                    },
                ) && (neg ==> v@.len() > 0 && v@[0] == '-'),
                None => match d {
                    Some(x) => x > u64::MAX || x < -(u64::MAX as int),
                    None => true,
                },
            }
        }),
{
    if v.len() == 0 {
        return None;
    }
    let first = v[0];
    if first == '-' && !allow_minus {
        return None;
    }
    if first == '-' || first == '+' {
        match parse_magnitude(v, 1) {
            Some(m) => Some((first == '-', m)),
            None => None,
        }
    } else {
        assert(v@.subrange(0, v@.len() as int) =~= v@);
        match parse_magnitude(v, 0) {
            Some(m) => Some((false, m)),
            None => None,
        }
    }
}

/// Reads `v` as an `i64` in decimal notation.
pub fn parse_i64(v: &Vec<char>) -> (r: Option<i64>)
    ensures
        r == parsed_i64(v@),
{
    match parse_signed_parts(v, true) {
        Some((neg, m)) => {
            if neg {
                if m <= 0x7fff_ffff_ffff_ffff {
                    Some(-(m as i64))
                } else if m == 0x8000_0000_0000_0000 {
                    Some(i64::MIN)
                } else {
                    None
                }
            } else if m <= 0x7fff_ffff_ffff_ffff {
                Some(m as i64)
            } else {
                None
            }
        },
        None => None,
    }
}

/// Reads `v` as an `i32` in decimal notation.
pub fn parse_i32(v: &Vec<char>) -> (r: Option<i32>)
    ensures
        r == parsed_i32(v@),
{
    match parse_i64(v) {
        Some(x) => if -0x8000_0000 <= x && x <= 0x7fff_ffff {
            Some(x as i32)
        } else {
            None
        },
        None => None,
    }
}

/// Reads `v` as a `u64` in decimal notation.
pub fn parse_u64(v: &Vec<char>) -> (r: Option<u64>)
    ensures
        r == parsed_u64(v@),
{
    match parse_signed_parts(v, false) {
        Some((_, m)) => Some(m),
        None => None,
    }
}

/// Reads `v` as a `u32` in decimal notation.
pub fn parse_u32(v: &Vec<char>) -> (r: Option<u32>)
    ensures
        r == parsed_u32(v@),
{
    match parse_u64(v) {
        Some(x) => if x <= 0xffff_ffff {
            Some(x as u32)
        } else {
            None
        },
        None => None,
    }
}

/// Ten to the power `n`.
pub open spec fn pow10(n: nat) -> nat
    decreases n,
{
    if n == 0 {
        1
    } else {
        10 * pow10((n - 1) as nat)
    }
}

/// The integer part of the number whose decimal digits are `d`, with the
/// decimal point after the first `p` of them: the first `p` digits, padded
/// with zeros where `d` has fewer.
pub open spec fn decimal_floor(d: Seq<char>, p: int) -> nat {
    if p <= 0 {
        0
    } else if p <= d.len() {
        digits_value(d.subrange(0, p))
    } else {
        digits_value(d) * pow10((p - d.len()) as nat)
    }
}

/// First index at or after `i` that holds no decimal digit.
pub open spec fn digits_end(s: Seq<char>, i: int) -> int
    decreases s.len() - i,
{
    if 0 <= i < s.len() && is_digit(s[i]) {
        digits_end(s, i + 1)
    } else {
        i
    }
}

/// The sign and digits that a number in decimal notation starts with.
pub struct Mantissa {
    /// Whether a `-` leads.
    pub negative: bool,
    /// The digits before and after the decimal point, joined.
    pub digits: Seq<char>,
    /// How many of the digits stand before the decimal point.
    pub int_len: int,
    /// Where the mantissa ends in the text.
    pub end: int,
}

/// A number in decimal or scientific notation, taken apart.
pub struct Notation {
    /// Whether a `-` leads.
    pub negative: bool,
    /// The digits before and after the decimal point, joined.
    pub digits: Seq<char>,
    /// How many of the digits stand before the decimal point.
    pub int_len: int,
    /// The exponent of ten, zero where none is written.
    pub exponent: int,
}

/// Reads the mantissa that `s` starts with: an optional sign, digits, and
/// an optional decimal point with more digits.
pub open spec fn mantissa_of(s: Seq<char>) -> Mantissa {
    let a: int = if s.len() > 0 && (s[0] == '+' || s[0] == '-') {
        1
    } else {
        0
    };
    let b = digits_end(s, a);
    let dot = b < s.len() && s[b] == '.';
    Mantissa {
        negative: a == 1 && s[0] == '-',
        digits: if dot {
            s.subrange(a, b) + s.subrange(b + 1, digits_end(s, b + 1))
        } else {
            s.subrange(a, b)
        },
        int_len: b - a,
        end: if dot {
            digits_end(s, b + 1)
        } else {
            b
        },
    }
}

/// Reads `s` as a number: a mantissa with at least one digit, then an
/// optional exponent, `e` or `E` with a signed decimal integer.
pub open spec fn notation_of(s: Seq<char>) -> Option<Notation> {
    let m = mantissa_of(s);
    if m.digits.len() == 0 {
        None
    } else if m.end == s.len() {
        Some(
            Notation { negative: m.negative, digits: m.digits, int_len: m.int_len, exponent: 0 },
        )
    } else if s[m.end] == 'e' || s[m.end] == 'E' {
        match signed_decimal(s.subrange(m.end + 1, s.len() as int)) {
            Some(e) => Some(
                Notation {
                    negative: m.negative,
                    digits: m.digits,
                    int_len: m.int_len,
                    exponent: e,
                },
            ),
            None => None,
        }
    } else {
        None
    }
}

/// `v`, or two to the 63 if `v` is that much or more.
pub open spec fn saturated(v: nat) -> nat {
    if v >= 0x8000_0000_0000_0000 {
        0x8000_0000_0000_0000
    } else {
        v
    }
}

/// The number that `n` denotes, truncated toward zero and kept within the
/// range of `i64`.
pub open spec fn notation_value(n: Notation) -> i64 {
    signed_value(n.negative, saturated(decimal_floor(n.digits, n.int_len + n.exponent)))
}

/// The `i64` nearest to the number of the given sign and magnitude.
pub open spec fn signed_value(negative: bool, mag: nat) -> i64 {
    if negative {
        if mag >= 0x8000_0000_0000_0000 {
            i64::MIN
        } else {
            (-(mag as int)) as i64
        }
    } else {
        if mag >= 0x8000_0000_0000_0000 {
            i64::MAX
        } else {
            mag as i64
        }
    }
}

/// The integer that `s` denotes in decimal or scientific notation,
/// truncated toward zero and kept within the range of `i64`; `None` when
/// `s` is no such number.
pub open spec fn truncated_decimal(s: Seq<char>) -> Option<i64> {
    match notation_of(s) {
        Some(n) => Some(notation_value(n)),
        None => None,
    }
}

pub proof fn lemma_digits_end(s: Seq<char>, i: int)
    requires
        0 <= i <= s.len(),
    ensures
        i <= digits_end(s, i) <= s.len(),
        all_digits(s.subrange(i, digits_end(s, i))),
        digits_end(s, i) < s.len() ==> !is_digit(s[digits_end(s, i)]),
    decreases s.len() - i,
{
    if i < s.len() && is_digit(s[i]) {
        lemma_digits_end(s, i + 1);
        let e = digits_end(s, i);
        assert forall|j: int| 0 <= j < e - i implies is_digit(#[trigger] s.subrange(i, e)[j]) by {
            if j > 0 {
                assert(s.subrange(i, e)[j] == s.subrange(i + 1, e)[j - 1]);
            }
        }
    }
}

/// A digit string of `n` digits denotes less than ten to the `n`.
pub proof fn lemma_digits_bound(s: Seq<char>)
    requires
        all_digits(s),
    ensures
        digits_value(s) < pow10(s.len()),
    decreases s.len(),
{
    if s.len() > 0 {
        assert forall|j: int| 0 <= j < s.drop_last().len() implies is_digit(
            #[trigger] s.drop_last()[j],
        ) by {
            assert(s.drop_last()[j] == s[j]);
        }
        lemma_digits_bound(s.drop_last());
        assert(is_digit(s[s.len() - 1]));
    }
}

pub proof fn lemma_pow10_grows(a: nat, b: nat)
    requires
        a <= b,
    ensures
        1 <= pow10(a) <= pow10(b),
    decreases b,
{
    if b > 0 {
        if a < b {
            lemma_pow10_grows(a, (b - 1) as nat);
        } else {
            lemma_pow10_grows((a - 1) as nat, (b - 1) as nat);
        }
    }
}

pub proof fn lemma_pow10_19()
    ensures
        pow10(19) == 10_000_000_000_000_000_000nat,
        pow10(20) == 100_000_000_000_000_000_000nat,
{
    reveal_with_fuel(pow10, 21);
}

/// A product of naturals is no less than either factor once the other is
/// at least one, and grows with its second factor.
pub proof fn lemma_mul_grows(v: nat, a: nat, b: nat)
    requires
        a <= b,
    ensures
        v * a <= v * b,
{
    assert(v * a <= v * b) by (nonlinear_arith)
        requires
            a <= b,
    ;
}

/// The value of the first `p` digits of `d`, or two to the 63 if it is
/// that much or more.
pub fn saturating_digits(d: &Vec<char>, p: usize) -> (r: u64)
    requires
        p <= d.len(),
        all_digits(d@),
    ensures
        r == saturated(digits_value(d@.subrange(0, p as int))),
{
    let ghost w = d@.subrange(0, p as int);
    let mut acc: u64 = 0;
    let mut i: usize = 0;
    while i < p
        invariant
            i <= p <= d.len(),
            all_digits(d@),
            w == d@.subrange(0, p as int),
            acc < 0x8000_0000_0000_0000,
            acc == digits_value(d@.subrange(0, i as int)),
        decreases p - i,
    {
        let c = d[i];
        assert(is_digit(d@[i as int]));
        let dv: u64 = (c as u32 - '0' as u32) as u64;
        let ghost next = d@.subrange(0, i + 1);
        assert(next.drop_last() =~= d@.subrange(0, i as int));
        if acc >= 922337203685477581 || acc * 10 + dv >= 0x8000_0000_0000_0000 {
            proof {
                lemma_digits_prefix(w, i + 1);
                assert(w.subrange(0, i + 1) =~= next);
            }
            return 0x8000_0000_0000_0000;
        }
        acc = acc * 10 + dv;
        i = i + 1;
    }
    assert(d@.subrange(0, i as int) =~= w);
    acc
}

/// `v` times ten to the `extra`, or two to the 63 if it is that much or
/// more. `extra` may stand for any larger number once it is 19 or more.
fn saturating_shift(v: u64, extra: u64, Ghost(true_extra): Ghost<nat>) -> (r: u64)
    requires
        v < 0x8000_0000_0000_0000,
        extra <= 19,
        extra < 19 ==> true_extra == extra,
        extra == 19 ==> true_extra >= 19,
    ensures
        r == saturated(v as nat * pow10(true_extra)),
{
    if v == 0 {
        assert(0 * pow10(true_extra) == 0) by (nonlinear_arith);
        return 0;
    }
    let mut acc: u64 = v;
    let mut k: u64 = 0;
    assert(pow10(0) == 1);
    assert(v * 1 == v) by (nonlinear_arith);
    while k < extra
        invariant
            k <= extra <= 19,
            1 <= v,
            acc <= 0x8000_0000_0000_0000,
            acc < 0x8000_0000_0000_0000 ==> acc == v * pow10(k as nat),
            acc == 0x8000_0000_0000_0000 ==> v * pow10(k as nat) >= 0x8000_0000_0000_0000,
        decreases extra - k,
    {
        let ghost prev = v * pow10(k as nat);
        assert(v * pow10((k + 1) as nat) == prev * 10) by (nonlinear_arith)
            requires
                pow10((k + 1) as nat) == 10 * pow10(k as nat),
                prev == v * pow10(k as nat),
        ;
        if acc >= 922337203685477581 {
            acc = 0x8000_0000_0000_0000;
        } else {
            acc = acc * 10;
        }
        k = k + 1;
    }
    proof {
        lemma_pow10_grows(k as nat, true_extra);
        lemma_mul_grows(v as nat, pow10(k as nat), pow10(true_extra));
        if extra == 19 {
            lemma_pow10_19();
            lemma_mul_grows(pow10(19), 1, v as nat);
            assert(v * pow10(19) == pow10(19) * v) by (nonlinear_arith);
            assert(pow10(19) * 1 == pow10(19)) by (nonlinear_arith);
        }
    }
    acc
}

/// Finds where the run of decimal digits that starts at `from` ends.
pub fn scan_digits(v: &Vec<char>, from: usize) -> (r: usize)
    requires
        from <= v.len(),
    ensures
        r == digits_end(v@, from as int),
        from <= r <= v.len(),
{
    let mut i: usize = from;
    while i < v.len() && is_ascii_digit(v[i])
        invariant
            from <= i <= v.len(),
            digits_end(v@, from as int) == digits_end(v@, i as int),
        decreases v.len() - i,
    {
        i = i + 1;
    }
    i
}

/// Tests whether `v` is an optional sign followed by one or more digits.
pub fn is_signed_decimal(v: &Vec<char>) -> (r: bool)
    ensures
        r == signed_decimal(v@) is Some,
{
    if v.len() == 0 {
        return false;
    }
    let start: usize = if v[0] == '-' || v[0] == '+' {
        1
    } else {
        0
    };
    let end = scan_digits(v, start);
    proof {
        lemma_digits_end(v@, start as int);
        let d = v@.subrange(start as int, v@.len() as int);
        if end < v.len() {
            assert(d[end - start] == v@[end as int]);
        }
        if start == 0 {
            assert(d =~= v@);
        }
    }
    end == v.len() && end > start
}

/// The `i64` nearest to the number of the given sign and magnitude.
fn signed_saturated(negative: bool, mag: u64) -> (r: i64)
    requires
        mag <= 0x8000_0000_0000_0000,
    ensures
        r == signed_value(negative, mag as nat),
{
    if mag >= 0x8000_0000_0000_0000 {
        if negative {
            i64::MIN
        } else {
            i64::MAX
        }
    } else if negative {
        -(mag as i64)
    } else {
        mag as i64
    }
}

/// Reads the mantissa that `v` starts with: its sign, its digits, how many
/// of them stand before the decimal point, and where it ends.
pub fn read_mantissa(v: &Vec<char>) -> (r: (bool, Vec<char>, usize, usize))
    ensures
        r.0 == mantissa_of(v@).negative,
        r.1@ == mantissa_of(v@).digits,
        r.2 == mantissa_of(v@).int_len,
        r.3 == mantissa_of(v@).end,
        all_digits(r.1@),
        r.2 <= r.1@.len(),
        r.1@.len() <= r.3 <= v.len(),
{
    let n = v.len();
    let a: usize = if n > 0 && (v[0] == '+' || v[0] == '-') {
        1
    } else {
        0
    };
    let b = scan_digits(v, a);
    let dot = b < n && v[b] == '.';
    let c = if dot {
        scan_digits(v, b + 1)
    } else {
        b
    };
    let mut digits = slice(v, a, b);
    if dot {
        extend_range(&mut digits, v, b + 1, c);
    }
    proof {
        lemma_digits_end(v@, a as int);
        if dot {
            lemma_digits_end(v@, b + 1);
        }
        assert forall|j: int| 0 <= j < digits@.len() implies is_digit(#[trigger] digits@[j]) by {
            if j < b - a {
                assert(digits@[j] == v@.subrange(a as int, b as int)[j]);
            } else {
                assert(digits@[j] == v@.subrange(b + 1, c as int)[j - (b - a)]);
            }
        }
    }
    (a == 1 && v[0] == '-', digits, b - a, c)
}

/// The integer part of the number with digits `d` and the decimal point
/// after `int_len` of them, times ten to the power of plus or minus `m`,
/// or two to the 63 if it is that much or more.
pub fn shifted_magnitude(d: &Vec<char>, int_len: usize, exp_negative: bool, m: u64) -> (r: u64)
    requires
        all_digits(d@),
        int_len <= d.len(),
    ensures
        r == saturated(
            decimal_floor(
                d@,
                if exp_negative {
                    int_len - m
                } else {
                    int_len + m
                },
            ),
        ),
{
    let frac_len: usize = d.len() - int_len;
    if exp_negative {
        if m >= int_len as u64 {
            0
        } else {
            saturating_digits(d, int_len - m as usize)
        }
    } else if m <= frac_len as u64 {
        saturating_digits(d, int_len + m as usize)
    } else {
        let base = saturating_digits(d, d.len());
        assert(d@.subrange(0, d@.len() as int) =~= d@);
        let ghost extra_true = (m - frac_len) as nat;
        if base >= 0x8000_0000_0000_0000 {
            proof {
                lemma_pow10_grows(0, extra_true);
                lemma_mul_grows(digits_value(d@), 1, pow10(extra_true));
                assert(digits_value(d@) * 1 == digits_value(d@)) by (nonlinear_arith);
            }
            base
        } else {
            let extra: u64 = if m - frac_len as u64 >= 19 {
                19
            } else {
                m - frac_len as u64
            };
            saturating_shift(base, extra, Ghost(extra_true))
        }
    }
}

/// As [`shifted_magnitude`], for an exponent `e` too large for a `u64`.
fn shifted_far(d: &Vec<char>, int_len: usize, exp_negative: bool, Ghost(e): Ghost<nat>) -> (r:
    u64)
    requires
        all_digits(d@),
        int_len <= d.len(),
        e >= d.len() + 19,
    ensures
        r == saturated(
            decimal_floor(
                d@,
                if exp_negative {
                    int_len - e
                } else {
                    int_len + e
                },
            ),
        ),
{
    if exp_negative {
        0
    } else {
        let base = saturating_digits(d, d.len());
        assert(d@.subrange(0, d@.len() as int) =~= d@);
        let ghost extra_true = (int_len + e - d.len()) as nat;
        if base >= 0x8000_0000_0000_0000 {
            proof {
                lemma_pow10_grows(0, extra_true);
                lemma_mul_grows(digits_value(d@), 1, pow10(extra_true));
                assert(digits_value(d@) * 1 == digits_value(d@)) by (nonlinear_arith);
            }
            base
        } else {
            saturating_shift(base, 19, Ghost(extra_true))
        }
    }
}

/// An exponent too large for a `u64` has at least twenty digits.
pub proof fn lemma_long_exponent(s: Seq<char>)
    requires
        signed_decimal(s) matches Some(x) && (x > u64::MAX || x < -(u64::MAX as int)),
    ensures
        s.len() >= 20,
{
    let d = if s[0] == '+' || s[0] == '-' {
        s.subrange(1, s.len() as int)
    } else {
        s
    };
    lemma_digits_bound(d);
    lemma_pow10_19();
    if d.len() <= 19 {
        lemma_pow10_grows(d.len(), 19);
    }
}

/// Reads `v` as a number in decimal or scientific notation and truncates it
/// toward zero, within the range of `i64`.
pub fn parse_decimal(v: &Vec<char>) -> (r: Option<i64>)
    ensures
        r == truncated_decimal(v@),
{
    let n = v.len();
    let (negative, digits, int_len, c) = read_mantissa(v);
    if digits.len() == 0 {
        return None;
    }
    if c == n {
        let mag = shifted_magnitude(&digits, int_len, false, 0);
        return Some(signed_saturated(negative, mag));
    }
    if !(v[c] == 'e' || v[c] == 'E') {
        return None;
    }
    let exp_text = slice(v, c + 1, n);
    if !is_signed_decimal(&exp_text) {
        return None;
    }
    let exp_negative = exp_text[0] == '-';
    let mag = match parse_signed_parts(&exp_text, true) {
        Some((_, m)) => shifted_magnitude(&digits, int_len, exp_negative, m),
        None => {
            let ghost e = signed_decimal(exp_text@)->0;
            proof {
                lemma_long_exponent(exp_text@);
            }
            shifted_far(
                &digits,
                int_len,
                exp_negative,
                Ghost(
                    (if e < 0 {
                        -e
                    } else {
                        e
                    }) as nat,
                ),
            )
        },
    };
    Some(signed_saturated(negative, mag))
}

/// The character for the decimal digit `d`.
pub open spec fn digit_char(d: nat) -> char {
    if d == 0 {
        '0'
    } else if d == 1 {
        '1'
    } else if d == 2 {
        '2'
    } else if d == 3 {
        '3'
    } else if d == 4 {
        '4'
    } else if d == 5 {
        '5'
    } else if d == 6 {
        '6'
    } else if d == 7 {
        '7'
    } else if d == 8 {
        '8'
    } else {
        '9'
    }
}

/// The decimal digits of `n`, most significant first, without leading
/// zeros.
pub open spec fn digits_of(n: nat) -> Seq<char>
    decreases n,
{
    if n < 10 {
        seq![digit_char(n)]
    } else {
        digits_of(n / 10).push(digit_char(n % 10))
    }
}

/// The decimal text of an integer: its digits, after `-` when negative.
pub open spec fn decimal_text(n: int) -> Seq<char> {
    if n < 0 {
        seq!['-'] + digits_of((-n) as nat)
    } else {
        digits_of(n as nat)
    }
}

/// The character for a decimal digit.
pub fn digit_to_char(d: u64) -> (r: char)
    requires
        d < 10,
    ensures
        r == digit_char(d as nat),
{
    if d == 0 {
        '0'
    } else if d == 1 {
        '1'
    } else if d == 2 {
        '2'
    } else if d == 3 {
        '3'
    } else if d == 4 {
        '4'
    } else if d == 5 {
        '5'
    } else if d == 6 {
        '6'
    } else if d == 7 {
        '7'
    } else if d == 8 {
        '8'
    } else {
        '9'
    }
}

/// Appends the decimal digits of `n` to `out`.
pub fn push_digits(out: &mut Vec<char>, n: u64)
    ensures
        final(out)@ == old(out)@ + digits_of(n as nat),
{
    let mut rev: Vec<char> = Vec::new();
    rev.push(digit_to_char(n % 10));
    let mut rest: u64 = n / 10;
    assert(rev@.reverse() =~= seq![digit_char((n % 10) as nat)]);
    while rest > 0
        invariant
            rev@.len() >= 1,
            rest > 0 ==> digits_of(n as nat) == digits_of(rest as nat) + rev@.reverse(),
            rest == 0 ==> digits_of(n as nat) == rev@.reverse(),
        decreases rest,
    {
        let ghost before = rev@;
        let d = digit_to_char(rest % 10);
        rev.push(d);
        proof {
            assert(rev@.reverse() =~= seq![d] + before.reverse());
            let next = rest / 10;
            if next > 0 {
                assert(digits_of(rest as nat) == digits_of(next as nat).push(d));
                assert(digits_of(next as nat).push(d) + before.reverse() =~= digits_of(next as nat)
                    + rev@.reverse());
            } else {
                assert(digits_of(rest as nat) == seq![d]);
            }
        }
        rest = rest / 10;
    }
    let mut i: usize = rev.len();
    let ghost start = out@;
    assert(start + rev@.reverse().subrange(0, 0) =~= start);
    while i > 0
        invariant
            i <= rev.len(),
            out@ == start + rev@.reverse().subrange(0, rev@.len() - i),
        decreases i,
    {
        let ghost k = rev@.len() - i;
        out.push(rev[i - 1]);
        assert(rev@.reverse()[k] == rev@[i - 1]);
        assert(rev@.reverse().subrange(0, k + 1) =~= rev@.reverse().subrange(0, k).push(
            rev@[i - 1],
        ));
        i = i - 1;
        assert(out@ =~= start + rev@.reverse().subrange(0, rev@.len() - i));
    }
    assert(rev@.reverse().subrange(0, rev@.len() as int) =~= rev@.reverse());
}

/// The decimal text of `n`.
pub fn format_i64(n: i64) -> (r: String)
    ensures
        r@ == decimal_text(n as int),
{
    let mut out: Vec<char> = Vec::new();
    if n < 0 {
        out.push('-');
        let mag: u64 = if n == i64::MIN {
            0x8000_0000_0000_0000
        } else {
            (-n) as u64
        };
        push_digits(&mut out, mag);
    } else {
        push_digits(&mut out, n as u64);
        assert(out@ =~= digits_of(n as nat));
    }
    string_of(&out)
}

/// The decimal text of `n`.
pub fn format_u64(n: u64) -> (r: String)
    ensures
        r@ == decimal_text(n as int),
{
    let mut out: Vec<char> = Vec::new();
    push_digits(&mut out, n);
    assert(out@ =~= digits_of(n as nat));
    string_of(&out)
}

} // verus!
