//! Mixed-radix pairs `(hi, lo)` with value `hi * 10_000 + lo`, and their
//! addition and doubling modulo `cp * 10_000`.

use vstd::arithmetic::div_mod::lemma_small_mod;
use vstd::prelude::*;

verus! {

/// Number of basis points in one unit; the radix of the low limb.
pub const BASIS_POINTS_PER_UNIT: u64 = 10_000;

/// The number that the pair `(hi, lo)` stands for.
pub open spec fn radix_value(hi: u64, lo: u64) -> nat {
    (hi * 10_000 + lo) as nat
}

/// The modulus `cp * 10_000` that all reductions work against.
pub open spec fn modulus(cp: u64) -> nat {
    (cp * 10_000) as nat
}

/// A pair is reduced against `cp` when it stands for a number below `cp * 10_000`
/// with a low limb below the radix.
pub open spec fn is_reduced(hi: u64, lo: u64, cp: u64) -> bool {
    hi < cp && lo < 10_000
}

/// Splits `x` into its mixed-radix pair.
pub fn split_base_10k(x: u64) -> (r: (u64, u64))
    ensures
        r.0 == x / 10_000,
        r.1 == x % 10_000,
        r.1 < 10_000,
        radix_value(r.0, r.1) == x,
{
    (x / BASIS_POINTS_PER_UNIT, x % BASIS_POINTS_PER_UNIT)
}

/// Adds `add` into `*hi` modulo `cp` and returns 1 if the sum passed `cp`, else 0.
///
/// A zero addend leaves `*hi` as it is. Otherwise `*hi` is first brought below
/// `cp`, so the sum that is split into wrap and rest is `*hi % cp + add`.
pub fn add_hi_mod(hi: &mut u64, add: u64, cp: u64) -> (wraps: u64)
    requires
        cp > 0,
    ensures
        add == 0 ==> wraps == 0 && *final(hi) == *old(hi),
        add != 0 ==> wraps == (if *old(hi) % cp + add >= cp { 1u64 } else { 0u64 }),
        add != 0 ==> *final(hi) + wraps * cp == *old(hi) % cp + add,
        add != 0 && add <= cp ==> *final(hi) < cp,
{
    if add == 0 {
        return 0;
    }
    if *hi >= cp {
        *hi = *hi % cp;
    } else {
        proof {
            lemma_small_mod(*hi as nat, cp as nat);
        }
    }
    let space: u64 = cp - *hi;
    if add >= space {
        *hi = add - space;
        1
    } else {
        *hi = *hi + add;
        0
    }
}

/// Adds the pair `(add_hi, add_lo)` into the reduced pair `(*hi, *lo)` modulo
/// `cp * 10_000` and returns how many times the modulus was passed.
///
/// With `add_hi < cp` the modulus is passed at most once; an addend with
/// `add_hi == cp` can pass it twice.
pub fn add_base_10k_mod(hi: &mut u64, lo: &mut u64, add_hi: u64, add_lo: u64, cp: u64) -> (wraps:
    u64)
    requires
        cp > 0,
        is_reduced(*old(hi), *old(lo), cp),
        add_hi <= cp,
        add_lo < 10_000,
    ensures
        is_reduced(*final(hi), *final(lo), cp),
        wraps <= 2,
        add_hi < cp ==> wraps <= 1,
        wraps * modulus(cp) + radix_value(*final(hi), *final(lo)) == radix_value(
            *old(hi),
            *old(lo),
        ) + radix_value(add_hi, add_lo),
{
    let mut carry_hi: u64 = 0;
    let mut lo_sum: u64 = *lo + add_lo;
    if lo_sum >= BASIS_POINTS_PER_UNIT {
        lo_sum = lo_sum - BASIS_POINTS_PER_UNIT;
        carry_hi = 1;
    }
    *lo = lo_sum;

    let ghost h0: u64 = *hi;
    proof {
        lemma_small_mod(h0 as nat, cp as nat);
    }
    let first: u64 = add_hi_mod(hi, add_hi, cp);
    let ghost h1: u64 = *hi;
    proof {
        assert(h1 + first * cp == h0 + add_hi);
        lemma_small_mod(h1 as nat, cp as nat);
    }
    let second: u64 = add_hi_mod(hi, carry_hi, cp);
    let wraps: u64 = first + second;
    proof {
        let h2: u64 = *hi;
        assert(h2 + second * cp == h1 + carry_hi);
        assert(wraps * cp == first * cp + second * cp) by (nonlinear_arith)
            requires
                wraps == first + second,
        ;
        assert(wraps * modulus(cp) == (wraps * cp) * 10_000) by (nonlinear_arith);
    }
    wraps
}

/// Doubles the reduced pair `(*hi, *lo)` modulo `cp * 10_000` and returns the
/// quotient bit that the doubling produced.
pub fn double_base_10k_reduce(hi: &mut u64, lo: &mut u64, cp: u64) -> (bit: u64)
    requires
        cp > 0,
        is_reduced(*old(hi), *old(lo), cp),
    ensures
        is_reduced(*final(hi), *final(lo), cp),
        bit <= 1,
        bit * modulus(cp) + radix_value(*final(hi), *final(lo)) == 2 * radix_value(
            *old(hi),
            *old(lo),
        ),
{
    let prev_hi: u64 = *hi;
    let prev_lo: u64 = *lo;
    let wraps: u64 = add_base_10k_mod(hi, lo, prev_hi, prev_lo, cp);
    if wraps != 0 {
        1
    } else {
        0
    }
}

} // verus!
