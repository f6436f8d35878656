//! Exact division of products that do not fit a machine word.

use vstd::arithmetic::div_mod::{
    lemma_div_is_ordered,
    lemma_fundamental_div_mod,
    lemma_fundamental_div_mod_converse,
};
use vstd::arithmetic::power2::{
    lemma2_to64,
    lemma2_to64_rest,
    lemma_pow2_adds,
    lemma_pow2_pos,
    lemma_pow2_unfold,
    pow2,
};
use vstd::prelude::*;

verus! {

/// The largest 64-bit value, plus one.
pub open spec fn beyond_u64() -> int {
    0x1_0000_0000_0000_0000
}

/// The quotient and the remainder of `a * b` by `d`, where the quotient fits
/// in 64 bits; `None` where it does not.
pub fn mul_div(a: u128, b: u128, d: u128) -> (r: Option<(u64, u128)>)
    requires
        0 < d < 0x8000_0000_0000_0000_0000_0000_0000_0000,
    ensures
        match r {
            Some((quotient, remainder)) => {
                &&& quotient * d + remainder == a * b
                &&& remainder < d
                &&& quotient == (a * b) / (d as int)
            },
            None => (a * b) / (d as int) >= beyond_u64(),
        },
    decreases b,
{
    if b == 0 {
        proof {
            assert(a * b == 0) by (nonlinear_arith)
                requires
                    b == 0,
            ;
            lemma_fundamental_div_mod_converse(0, d as int, 0, 0);
        }
        return Some((0, 0));
    }
    let unit_quotient: u128 = a / d;
    let unit_remainder: u128 = a % d;
    proof {
        lemma_fundamental_div_mod(a as int, d as int);
    }
    if unit_quotient > u64::MAX as u128 {
        proof {
            assert(a * b >= beyond_u64() * d) by (nonlinear_arith)
                requires
                    a == d * unit_quotient + unit_remainder,
                    unit_quotient >= beyond_u64(),
                    b >= 1,
                    d > 0,
                    unit_remainder >= 0,
            ;
            lemma_quotient_at_least(a * b, d as int, beyond_u64());
        }
        return None;
    }
    let half = b / 2;
    match mul_div(a, half, d) {
        None => {
            proof {
                assert(a * half <= a * b) by (nonlinear_arith)
                    requires
                        half <= b,
                        a >= 0,
                ;
                lemma_div_is_ordered(a * half, a * b, d as int);
            }
            None
        },
        Some((q, rem)) => {
            let mut quotient: u128 = q as u128 * 2;
            let mut remainder: u128 = rem * 2;
            if remainder >= d {
                remainder = remainder - d;
                quotient = quotient + 1;
            }
            assert(quotient * d + remainder == 2 * (a * half)) by (nonlinear_arith)
                requires
                    q * d + rem == a * half,
                    (quotient == 2 * q && remainder == 2 * rem) || (quotient == 2 * q + 1
                        && remainder == 2 * rem - d),
            ;
            let ghost q0 = quotient as int;
            let ghost r0 = remainder as int;
            if b % 2 == 1 {
                quotient = quotient + unit_quotient;
                remainder = remainder + unit_remainder;
                if remainder >= d {
                    remainder = remainder - d;
                    quotient = quotient + 1;
                }
            }
            assert(quotient * d + remainder == a * b) by (nonlinear_arith)
                requires
                    b == 2 * half + b % 2,
                    b % 2 == 0 || b % 2 == 1,
                    a == d * unit_quotient + unit_remainder,
                    q0 * d + r0 == 2 * (a * half),
                    if b % 2 == 1 {
                        (quotient == q0 + unit_quotient && remainder == r0 + unit_remainder) || (
                        quotient == q0 + unit_quotient + 1 && remainder == r0 + unit_remainder
                            - d)
                    } else {
                        quotient == q0 && remainder == r0
                    },
            ;
            proof {
                lemma_fundamental_div_mod_converse(
                    a * b,
                    d as int,
                    quotient as int,
                    remainder as int,
                );
            }
            if quotient > u64::MAX as u128 {
                None
            } else {
                Some((quotient as u64, remainder))
            }
        },
    }
}

/// A number that holds `k` whole multiples of `d` has a quotient of at least
/// `k`.
pub proof fn lemma_quotient_at_least(x: int, d: int, k: int)
    requires
        d > 0,
        x >= k * d,
    ensures
        x / d >= k,
{
    lemma_fundamental_div_mod_converse(k * d, d, k, 0);
    lemma_div_is_ordered(k * d, x, d);
}

/// Two to the power 127.
pub open spec fn two_to_127() -> int {
    0x8000_0000_0000_0000_0000_0000_0000_0000
}

proof fn lemma_pow2_127()
    ensures
        pow2(127) == two_to_127(),
{
    lemma2_to64();
    lemma2_to64_rest();
    lemma_pow2_adds(64, 63);
}

/// Two to the power `e`, for `e` up to 127.
pub fn power_of_two(e: u32) -> (p: u128)
    requires
        e <= 127,
    ensures
        p == pow2(e as nat),
{
    let mut p: u128 = 1;
    let mut i: u32 = 0;
    proof {
        lemma2_to64();
        lemma_pow2_127();
    }
    while i < e
        invariant
            i <= e <= 127,
            p == pow2(i as nat),
            p * pow2((127 - i) as nat) == two_to_127(),
        decreases e - i,
    {
        proof {
            lemma_pow2_unfold((i + 1) as nat);
            lemma_pow2_unfold((127 - i) as nat);
            lemma_pow2_pos((126 - i) as nat);
            let rest = pow2((126 - i) as nat) as int;
            assert(2 * p <= two_to_127() && (2 * p) * rest == two_to_127()) by (nonlinear_arith)
                requires
                    p * (2 * rest) == two_to_127(),
                    rest >= 1,
                    p >= 0,
            ;
        }
        p = p * 2;
        i = i + 1;
    }
    p
}

} // verus!
