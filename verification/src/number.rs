//! Numbers as text: decimal digits in and out, and fixed-point quantities.
//!
//! Fractional quantities (bit rates, frame rates, durations, volumes) are held
//! exactly, in thousandths of their unit, as a [`Milli`].

use vstd::prelude::*;

verus! {

// ---------------------------------------------------------------------------
// Digits
// ---------------------------------------------------------------------------

/// Whether `c` is one of the ASCII digits `0` to `9`.
pub open spec fn is_digit(c: char) -> bool {
    '0' <= c <= '9'
}

/// The value of the ASCII digit `c`.
pub open spec fn digit_of(c: char) -> nat {
    (c as u32 - 48) as nat
}

/// The ASCII digit for `d`, where `d < 10`.
pub open spec fn digit_char(d: nat) -> char {
    (48 + d) as char
}

/// Whether every character of `s` is an ASCII digit.
pub open spec fn all_digits(s: Seq<char>) -> bool {
    forall|i: int| 0 <= i < s.len() ==> is_digit(#[trigger] s[i])
}

/// The number that the digits `s` spell in base ten; 0 for the empty text.
pub open spec fn digits_value(s: Seq<char>) -> nat
    decreases s.len(),
{
    if s.len() == 0 {
        0
    } else {
        digits_value(s.drop_last()) * 10 + digit_of(s.last())
    }
}

/// The shortest base-ten spelling of `n`.
pub open spec fn decimal_text(n: nat) -> Seq<char>
    decreases n,
{
    if n < 10 {
        seq![digit_char(n)]
    } else {
        decimal_text(n / 10).push(digit_char(n % 10))
    }
}

/// The base-ten spelling of `i`, with a minus sign when it is negative.
pub open spec fn signed_decimal_text(i: int) -> Seq<char> {
    if i < 0 {
        seq!['-'] + decimal_text((-i) as nat)
    } else {
        decimal_text(i as nat)
    }
}

/// Decides [`is_digit`].
pub fn digit(c: char) -> (b: bool)
    ensures
        b == is_digit(c),
{
    c >= '0' && c <= '9'
}

fn digit_value(c: char) -> (d: u8)
    requires
        is_digit(c),
    ensures
        d == digit_of(c),
        d < 10,
{
    (c as u32 - 48) as u8
}

/// Reading the spelling of a number gives the number back.
pub proof fn lemma_decimal_text_round_trip(n: nat)
    ensures
        all_digits(decimal_text(n)),
        decimal_text(n).len() > 0,
        digits_value(decimal_text(n)) == n,
    decreases n,
{
    if n < 10 {
        let s = decimal_text(n);
        assert(digits_value(s.drop_last()) == 0);
    } else {
        lemma_decimal_text_round_trip(n / 10);
        let s = decimal_text(n);
        assert(s.drop_last() == decimal_text(n / 10));
    }
}

proof fn lemma_digits_value_push(s: Seq<char>, c: char)
    ensures
        digits_value(s.push(c)) == digits_value(s) * 10 + digit_of(c),
{
    assert(s.push(c).drop_last() == s);
}

proof fn lemma_digits_value_grows(s: Seq<char>, i: int)
    requires
        0 <= i <= s.len(),
    ensures
        digits_value(s.take(i)) <= digits_value(s),
    decreases s.len() - i,
{
    if i == s.len() {
        assert(s.take(i) == s);
    } else {
        lemma_digits_value_grows(s.drop_last(), i);
        assert(s.drop_last().take(i) == s.take(i));
    }
}

/// Appends the base-ten spelling of `n` to `out`.
pub fn push_decimal(out: &mut String, n: u64)
    ensures
        final(out)@ == old(out)@ + decimal_text(n as nat),
    decreases n,
{
    if n >= 10 {
        push_decimal(out, n / 10);
    }
    let d: u8 = (n % 10) as u8;
    let c: char = (48u8 + d) as char;
    out.push(c);
}

/// Appends the base-ten spelling of `i` to `out`, with a minus sign when it
/// is negative.
pub fn push_signed_decimal(out: &mut String, i: i64)
    ensures
        final(out)@ == old(out)@ + signed_decimal_text(i as int),
{
    if i < 0 {
        out.push('-');
        let magnitude: u64 = if i == i64::MIN {
            0x8000_0000_0000_0000u64
        } else {
            (-i) as u64
        };
        push_decimal(out, magnitude);
    } else {
        push_decimal(out, i as u64);
    }
}

/// The base-ten spelling of `n`.
pub fn decimal_string(n: u64) -> (s: String)
    ensures
        s@ == decimal_text(n as nat),
{
    let mut s = String::new();
    push_decimal(&mut s, n);
    s
}

/// The end of the run of digits that starts at `from`.
fn scan_digits(v: &Vec<char>, from: usize) -> (to: usize)
    requires
        from <= v.len(),
    ensures
        from <= to <= v.len(),
        all_digits(v@.subrange(from as int, to as int)),
        to == v.len() || !is_digit(v@[to as int]),
{
    let mut to: usize = from;
    while to < v.len() && digit(v[to])
        invariant
            from <= to <= v.len(),
            forall|k: int| from <= k < to ==> is_digit(#[trigger] v@[k]),
        decreases v.len() - to,
    {
        to += 1;
    }
    to
}

/// The value of the digits `v[from..to]` where it is at most `cap`.
fn digits_up_to(v: &Vec<char>, from: usize, to: usize, cap: u64) -> (r: Option<u64>)
    requires
        from <= to <= v.len(),
        all_digits(v@.subrange(from as int, to as int)),
    ensures
        r == (if digits_value(v@.subrange(from as int, to as int)) <= cap {
            Some(digits_value(v@.subrange(from as int, to as int)) as u64)
        } else {
            None
        }),
{
    let ghost whole = v@.subrange(from as int, to as int);
    let mut acc: u64 = 0;
    let mut i: usize = from;
    while i < to
        invariant
            from <= i <= to <= v.len(),
            whole == v@.subrange(from as int, to as int),
            all_digits(whole),
            acc == digits_value(v@.subrange(from as int, i as int)),
            acc <= cap,
        decreases to - i,
    {
        assert(whole[i - from] == v@[i as int]);
        let d = digit_value(v[i]);
        let next: u128 = acc as u128 * 10 + d as u128;
        proof {
            lemma_digits_value_push(v@.subrange(from as int, i as int), v@[i as int]);
            assert(v@.subrange(from as int, i as int).push(v@[i as int]) == v@.subrange(
                from as int,
                i + 1,
            ));
            lemma_digits_value_grows(whole, i + 1 - from);
            assert(whole.take(i + 1 - from) == v@.subrange(from as int, i + 1));
        }
        if next > cap as u128 {
            return None;
        }
        acc = next as u64;
        i += 1;
    }
    Some(acc)
}

// ---------------------------------------------------------------------------
// Whole numbers
// ---------------------------------------------------------------------------

/// The sign and the digits of a whole number written as an optional sign
/// followed by at least one digit; `None` for any other text. A minus sign
/// is accepted only where `signed` holds.
pub open spec fn sign_and_digits(s: Seq<char>, signed: bool) -> Option<(bool, Seq<char>)> {
    let negative = signed && s.len() > 0 && s[0] == '-';
    let body = if s.len() > 0 && (s[0] == '+' || negative) {
        s.drop_first()
    } else {
        s
    };
    if body.len() > 0 && all_digits(body) {
        Some((negative, body))
    } else {
        None
    }
}

/// The 32-bit signed integer that `s` spells: an optional `+` or `-`, then
/// digits, with a value in range. `None` for any other text.
pub open spec fn parse_i32_text(s: Seq<char>) -> Option<int> {
    match sign_and_digits(s, true) {
        Some((negative, body)) => {
            let v = if negative {
                -(digits_value(body) as int)
            } else {
                digits_value(body) as int
            };
            if i32::MIN <= v <= i32::MAX {
                Some(v)
            } else {
                None
            }
        },
        None => None,
    }
}

/// The 32-bit unsigned integer that `s` spells: an optional `+`, then digits,
/// with a value in range. `None` for any other text.
pub open spec fn parse_u32_text(s: Seq<char>) -> Option<int> {
    match sign_and_digits(s, false) {
        Some((_, body)) => {
            if digits_value(body) <= u32::MAX {
                Some(digits_value(body) as int)
            } else {
                None
            }
        },
        None => None,
    }
}

/// Splits a sign off and checks that digits, and only digits, follow.
fn split_sign(v: &Vec<char>, signed: bool) -> (r: Option<(bool, usize)>)
    ensures
        match r {
            Some((negative, from)) => {
                &&& from <= v.len()
                &&& sign_and_digits(v@, signed) == Some(
                    (negative, v@.subrange(from as int, v.len() as int)),
                )
            },
            None => sign_and_digits(v@, signed) is None,
        },
{
    let n = v.len();
    let negative = signed && n > 0 && v[0] == '-';
    let from: usize = if n > 0 && (v[0] == '+' || negative) {
        1
    } else {
        0
    };
    let to = scan_digits(v, from);
    proof {
        if from != 1 {
            assert(v@ == v@.subrange(0, n as int));
        }
        if to < n {
            assert(v@.subrange(from as int, n as int)[to - from] == v@[to as int]);
        }
    }
    if to == n && from < n {
        Some((negative, from))
    } else {
        None
    }
}

/// Reads a 32-bit signed integer.
pub fn parse_i32(v: &Vec<char>) -> (r: Option<i32>)
    ensures
        match r {
            Some(x) => parse_i32_text(v@) == Some(x as int),
            None => parse_i32_text(v@) is None,
        },
{
    match split_sign(v, true) {
        Some((negative, from)) => {
            if negative {
                match digits_up_to(v, from, v.len(), 0x8000_0000u64) {
                    Some(m) => Some((-(m as i64)) as i32),
                    None => None,
                }
            } else {
                match digits_up_to(v, from, v.len(), 0x7fff_ffffu64) {
                    Some(m) => Some(m as i32),
                    None => None,
                }
            }
        },
        None => None,
    }
}

/// Reads a 32-bit unsigned integer.
pub fn parse_u32(v: &Vec<char>) -> (r: Option<u32>)
    ensures
        match r {
            Some(x) => parse_u32_text(v@) == Some(x as int),
            None => parse_u32_text(v@) is None,
        },
{
    match split_sign(v, false) {
        Some((_, from)) => {
            match digits_up_to(v, from, v.len(), 0xffff_ffffu64) {
                Some(m) => Some(m as u32),
                None => None,
            }
        },
        None => None,
    }
}

// ---------------------------------------------------------------------------
// Fixed-point quantities
// ---------------------------------------------------------------------------

/// A non-negative quantity, held exactly in thousandths of its unit.
#[derive(Clone, Copy, Debug, PartialEq, Eq, Structural)]
pub struct Milli {
    pub thousandths: u64,
}

impl Milli {
    /// The quantity of `units` whole units.
    pub fn from_units(units: u32) -> (m: Milli)
        ensures
            m.thousandths == units * 1000,
    {
        Milli { thousandths: units as u64 * 1000 }
    }

    /// The quantity of `thousandths` thousandths of a unit.
    pub fn from_thousandths(thousandths: u64) -> (m: Milli)
        ensures
            m.thousandths == thousandths,
    {
        Milli { thousandths }
    }

    /// The whole units in the quantity, rounded to the nearest, halves upward.
    pub open spec fn rounded(self) -> int {
        (self.thousandths + 500) / 1000
    }
}

/// `x` where it fits in 64 bits, the largest 64-bit value otherwise.
pub open spec fn saturate_u64(x: int) -> u64 {
    if x > u64::MAX {
        u64::MAX
    } else if x < 0 {
        0
    } else {
        x as u64
    }
}

/// `x` where it fits in 32 bits, the largest 32-bit value otherwise.
pub open spec fn saturate_u32(x: int) -> u32 {
    if x > u32::MAX {
        u32::MAX
    } else if x < 0 {
        0
    } else {
        x as u32
    }
}

/// A decimal number as read from text: its sign, its magnitude cut to
/// thousandths (and held at the largest 64-bit value where it exceeds it),
/// and whether the magnitude as written is above zero.
#[derive(Clone, Copy, Debug, PartialEq, Eq, Structural)]
pub struct Decimal {
    pub negative: bool,
    pub thousandths: u64,
    pub nonzero: bool,
}

impl Decimal {
    /// Whether the number as written is strictly above zero.
    pub open spec fn is_positive(self) -> bool {
        !self.negative && self.nonzero
    }

    /// Decides [`Decimal::is_positive`].
    pub fn positive(&self) -> (b: bool)
        ensures
            b == self.is_positive(),
    {
        !self.negative && self.nonzero
    }

    /// The number cut to thousandths, with every negative number held as zero.
    pub open spec fn clamped(self) -> Milli {
        Milli { thousandths: if self.negative { 0 } else { self.thousandths } }
    }

    /// Computes [`Decimal::clamped`].
    pub fn to_milli(&self) -> (m: Milli)
        ensures
            m == self.clamped(),
    {
        Milli { thousandths: if self.negative { 0 } else { self.thousandths } }
    }
}

/// The length of the run of digits at the start of `s`.
pub open spec fn digit_run(s: Seq<char>) -> nat
    decreases s.len(),
{
    if s.len() > 0 && is_digit(s[0]) {
        1 + digit_run(s.drop_first())
    } else {
        0
    }
}

/// The digit at place `i` after the point, 0 where the fraction is shorter.
pub open spec fn fraction_digit(fraction: Seq<char>, i: int) -> nat {
    if 0 <= i < fraction.len() {
        digit_of(fraction[i])
    } else {
        0
    }
}

/// The first three places of a fraction, as a number of thousandths.
pub open spec fn fraction_thousandths(fraction: Seq<char>) -> nat {
    fraction_digit(fraction, 0) * 100 + fraction_digit(fraction, 1) * 10 + fraction_digit(
        fraction,
        2,
    )
}

/// The number with the given sign, digits before the point and digits after.
pub open spec fn decimal_of(negative: bool, whole: Seq<char>, fraction: Seq<char>) -> Decimal {
    Decimal {
        negative,
        thousandths: saturate_u64(
            (digits_value(whole) * 1000 + fraction_thousandths(fraction)) as int,
        ),
        nonzero: digits_value(whole) > 0 || digits_value(fraction) > 0,
    }
}

/// The sign, the digits before the point and the digits after it of a
/// decimal number: an optional `+` or `-`, then digits with at most one point
/// among them, before them or after them, and at least one digit in all.
/// `None` for any other text; no exponent is read.
pub open spec fn decimal_parts(s: Seq<char>) -> Option<(bool, Seq<char>, Seq<char>)> {
    let signed = s.len() > 0 && (s[0] == '+' || s[0] == '-');
    let negative = s.len() > 0 && s[0] == '-';
    let body = if signed {
        s.drop_first()
    } else {
        s
    };
    let k = digit_run(body) as int;
    let whole = body.take(k);
    let rest = body.skip(k);
    if rest.len() == 0 {
        if k > 0 {
            Some((negative, whole, Seq::empty()))
        } else {
            None
        }
    } else if rest[0] == '.' && all_digits(rest.skip(1)) && k + rest.len() > 1 {
        Some((negative, whole, rest.skip(1)))
    } else {
        None
    }
}

/// The decimal number that `s` spells, where it spells one.
pub open spec fn parse_decimal_text(s: Seq<char>) -> Option<Decimal> {
    match decimal_parts(s) {
        Some((negative, whole, fraction)) => Some(decimal_of(negative, whole, fraction)),
        None => None,
    }
}

proof fn lemma_digit_run(s: Seq<char>, k: int)
    requires
        0 <= k <= s.len(),
        forall|i: int| 0 <= i < k ==> is_digit(#[trigger] s[i]),
        k == s.len() || !is_digit(s[k]),
    ensures
        digit_run(s) == k,
    decreases k,
{
    if k > 0 {
        let t = s.drop_first();
        lemma_digit_run(t, k - 1);
    }
}

fn fraction_place(v: &Vec<char>, from: usize, i: usize) -> (d: u64)
    requires
        from <= v.len(),
        i < 3,
        all_digits(v@.subrange(from as int, v.len() as int)),
    ensures
        d == fraction_digit(v@.subrange(from as int, v.len() as int), i as int),
        d < 10,
{
    if i < v.len() - from {
        assert(v@.subrange(from as int, v.len() as int)[i as int] == v@[from + i]);
        digit_value(v[from + i]) as u64
    } else {
        0
    }
}

/// Where the parts of a decimal number lie in `v`: its sign, the bounds of
/// the digits before the point, and the start of the digits after it.
#[verifier::rlimit(40)]
fn scan_decimal(v: &Vec<char>) -> (r: Option<(bool, usize, usize, usize)>)
    ensures
        match r {
            Some((negative, from, to, fraction_from)) => {
                &&& from <= to <= fraction_from <= v.len()
                &&& all_digits(v@.subrange(from as int, to as int))
                &&& all_digits(v@.subrange(fraction_from as int, v.len() as int))
                &&& decimal_parts(v@) == Some(
                    (
                        negative,
                        v@.subrange(from as int, to as int),
                        v@.subrange(fraction_from as int, v.len() as int),
                    ),
                )
            },
            None => decimal_parts(v@) is None,
        },
{
    let n = v.len();
    let signed = n > 0 && (v[0] == '+' || v[0] == '-');
    let negative = n > 0 && v[0] == '-';
    let from: usize = if signed {
        1
    } else {
        0
    };
    let to = scan_digits(v, from);
    let ghost body = v@.subrange(from as int, n as int);
    let ghost k = to - from;
    proof {
        if !signed {
            assert(v@ == body);
        }
        lemma_digit_run(body, k);
    }
    if to == n {
        if to == from {
            return None;
        }
        return Some((negative, from, to, n));
    }
    if v[to] != '.' {
        return None;
    }
    let end = scan_digits(v, to + 1);
    proof {
        assert(body.skip(k).skip(1) == v@.subrange(to + 1, n as int));
        if end < n {
            assert(v@.subrange(to + 1, n as int)[end - to - 1] == v@[end as int]);
        }
    }
    if end != n || n - from < 2 {
        return None;
    }
    Some((negative, from, to, to + 1))
}

/// Reads a decimal number.
pub fn parse_decimal(v: &Vec<char>) -> (r: Option<Decimal>)
    ensures
        r == parse_decimal_text(v@),
{
    match scan_decimal(v) {
        None => None,
        Some((negative, from, to, fraction_from)) => {
            let n = v.len();
            let units = digits_up_to(v, from, to, u64::MAX);
            let d0 = fraction_place(v, fraction_from, 0);
            let d1 = fraction_place(v, fraction_from, 1);
            let d2 = fraction_place(v, fraction_from, 2);
            let part: u64 = d0 * 100 + d1 * 10 + d2;
            let fraction_zero = digits_up_to(v, fraction_from, n, 0).is_some();
            let thousandths: u64 = match units {
                Some(u) => {
                    let exact: u128 = u as u128 * 1000 + part as u128;
                    if exact > u64::MAX as u128 {
                        u64::MAX
                    } else {
                        exact as u64
                    }
                },
                None => u64::MAX,
            };
            let nonzero = match units {
                Some(u) => u > 0 || !fraction_zero,
                None => true,
            };
            Some(Decimal { negative, thousandths, nonzero })
        },
    }
}

} // verus!
