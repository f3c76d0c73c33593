//! Saturating balance arithmetic and the integer binary logarithm that the
//! weight adjuster uses, together with the division facts the distribution
//! laws rest on.

use vstd::prelude::*;
use vstd::arithmetic::div_mod::{lemma_fundamental_div_mod, lemma_mod_bound};
use vstd::arithmetic::power2::{pow2, lemma_pow2_adds, lemma2_to64};

verus! {

/// Saturating addition on 128-bit balances.
pub open spec fn sat_add(a: u128, b: u128) -> u128 {
    if a + b > u128::MAX {
        u128::MAX
    } else {
        (a + b) as u128
    }
}

/// Saturating subtraction on 128-bit balances (never below zero).
pub open spec fn sat_sub(a: u128, b: u128) -> u128 {
    if a < b {
        0
    } else {
        (a - b) as u128
    }
}

/// Saturating multiplication on 128-bit balances.
pub open spec fn sat_mul(a: u128, b: u128) -> u128 {
    if a * b > u128::MAX {
        u128::MAX
    } else {
        (a * b) as u128
    }
}

/// Saturating subtraction on block numbers.
pub open spec fn sat_sub_u64(a: u64, b: u64) -> u64 {
    if a < b {
        0
    } else {
        (a - b) as u64
    }
}

/// Saturating increment of a transaction counter.
pub open spec fn sat_add_u32(a: u32, b: u32) -> u32 {
    if a + b > u32::MAX {
        u32::MAX
    } else {
        (a + b) as u32
    }
}

/// Saturating multiplication, executable form.
pub fn saturating_mul_u128(a: u128, b: u128) -> (r: u128)
    ensures
        r == sat_mul(a, b),
{
    match a.checked_mul(b) {
        Some(x) => x,
        None => u128::MAX,
    }
}

/// Floor of the base-two logarithm; zero below two.
pub open spec fn log2(x: int) -> int
    decreases x,
{
    if x < 2 {
        0
    } else {
        1 + log2(x / 2)
    }
}

/// Floor of the base-two logarithm of a positive balance.
pub fn floor_log2(x: u128) -> (r: u32)
    requires
        x >= 1,
    ensures
        r == log2(x as int),
        r <= 127,
{
    let mut v: u128 = x;
    let mut r: u32 = 0;
    proof {
        lemma2_to64();
    }
    while v >= 2
        invariant
            1 <= v <= x,
            log2(x as int) == r + log2(v as int),
            v as int * pow2(r as nat) <= x as int,
            r <= 127,
        decreases v,
    {
        proof {
            // One more halving keeps the power-of-two witness below the bound.
            assert(pow2((r + 1) as nat) == 2 * pow2(r as nat)) by {
                lemma_pow2_adds(1, r as nat);
                lemma2_to64();
            }
            assert((v / 2) as int * pow2((r + 1) as nat) <= v as int * pow2(r as nat)) by (nonlinear_arith)
                requires
                    v >= 2,
                    pow2((r + 1) as nat) == 2 * pow2(r as nat),
                    pow2(r as nat) >= 0,
            ;
            assert(pow2((r + 1) as nat) <= (v / 2) as int * pow2((r + 1) as nat)) by (nonlinear_arith)
                requires
                    v >= 2,
                    pow2((r + 1) as nat) >= 0,
            ;
            assert(r + 1 <= 127) by {
                if r + 1 > 127 {
                    // Then r + 1 == 128, and pow2(128) exceeds every u128.
                    assert(pow2(128) == pow2(64) * pow2(64)) by {
                        lemma_pow2_adds(64, 64);
                    }
                    lemma2_to64();
                }
            }
        }
        v = v / 2;
        r = r + 1;
    }
    r
}

/// The defining bounds of truncating division:
/// `d * (a/d) <= a < d * (a/d) + d`.
pub proof fn lemma_div_bounds(a: int, d: int)
    requires
        0 <= a,
        0 < d,
    ensures
        d * (a / d) <= a,
        a < d * (a / d) + d,
        a / d >= 0,
{
    lemma_fundamental_div_mod(a, d);
    lemma_mod_bound(a, d);
    assert(d * (a / d) <= a && a < d * (a / d) + d && a / d >= 0) by (nonlinear_arith)
        requires
            0 <= a,
            0 < d,
            a == d * (a / d) + a % d,
            0 <= a % d < d,
    ;
}

} // verus!
