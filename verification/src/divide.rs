//! Bit-serial long division of a product by `cp * 10_000`.

use crate::capped::{add_with_cap, double_with_cap};
use crate::radix::{
    add_base_10k_mod, double_base_10k_reduce, is_reduced, modulus, radix_value, split_base_10k,
};
use vstd::arithmetic::div_mod::{
    lemma_basic_div, lemma_fundamental_div_mod, lemma_fundamental_div_mod_converse,
    lemma_mod_bound, lemma_mod_multiples_vanish,
};
use vstd::prelude::*;

verus! {

/// The bits of `b` from position `i` upwards, as a number; nothing from
/// position 64 on.
spec fn high_bits(b: u64, i: u64) -> u64 {
    if i >= 64 {
        0
    } else {
        b >> i
    }
}

/// What the capped divider returns: `floor(a * b / (cp * 10_000))` with the
/// remainder as a mixed-radix pair, or nothing when the quotient passes
/// `q_cap`. A zero factor gives zeros whatever `cp` is; otherwise a zero `cp`
/// gives nothing.
pub open spec fn mul_div_spec(a: u64, b: u64, cp: u64, q_cap: u64) -> Option<(u64, u64, u64)> {
    let product = (a * b) as nat;
    let m = modulus(cp);
    if a == 0 || b == 0 {
        Some((0u64, 0u64, 0u64))
    } else if cp == 0 {
        None
    } else if product / m <= q_cap {
        Some(((product / m) as u64, (product % m / 10_000) as u64, (product % m % 10_000) as u64))
    } else {
        None
    }
}

/// What the remainder rescaling returns: `floor(rem * k / (cp * 10_000))` for
/// the number `rem` that the pair stands for.
pub open spec fn remainder_mul_div_spec(rem_hi: u64, rem_lo: u64, k: u64, cp: u64) -> nat {
    (radix_value(rem_hi, rem_lo) * k) as nat / modulus(cp)
}

/// Taking one more bit of `b` doubles the bits taken so far and adds the bit.
proof fn lemma_high_bits_step(b: u64, i: u64)
    requires
        i < 64,
    ensures
        high_bits(b, i) == 2 * high_bits(b, (i + 1) as u64) + ((b >> i) & 1),
        (b >> i) & 1 <= 1,
        high_bits(b, i) <= b,
        high_bits(b, 0) == b,
{
    assert((b >> i) & 1 <= 1) by (bit_vector);
    assert(b >> i <= b) by (bit_vector);
    assert(b >> 0u64 == b) by (bit_vector);
    if i < 63 {
        let j: u64 = (i + 1) as u64;
        assert(b >> i == 2 * (b >> j) + ((b >> i) & 1)) by (bit_vector)
            requires
                i < 63,
                j == i + 1,
        ;
    } else {
        assert(b >> i == (b >> i) & 1) by (bit_vector)
            requires
                i == 63,
        ;
    }
}

/// Doubling a partial division: from `q * m + v == a * p` to the same
/// statement for `2 * p`.
proof fn lemma_double_step(q: nat, v: nat, a: nat, p: nat, m: nat, bit: nat, v1: nat)
    requires
        q * m + v == a * p,
        bit * m + v1 == 2 * v,
    ensures
        (2 * q + bit) * m + v1 == a * (2 * p),
{
    assert((2 * q + bit) * m == 2 * (q * m) + bit * m) by (nonlinear_arith);
    assert(a * (2 * p) == 2 * (a * p)) by (nonlinear_arith);
}

/// Adding the multiplicand once to a partial division.
proof fn lemma_add_step(
    q: nat,
    v: nat,
    a: nat,
    p: nat,
    m: nat,
    adder_q: nat,
    adder_v: nat,
    wraps: nat,
    v1: nat,
)
    requires
        q * m + v == a * p,
        a == adder_q * m + adder_v,
        wraps * m + v1 == v + adder_v,
    ensures
        (q + adder_q + wraps) * m + v1 == a * (p + 1),
        (q + adder_q) * m <= a * (p + 1),
{
    assert((q + adder_q + wraps) * m == q * m + adder_q * m + wraps * m) by (nonlinear_arith);
    assert((q + adder_q) * m == q * m + adder_q * m) by (nonlinear_arith);
    assert(a * (p + 1) == a * p + a) by (nonlinear_arith);
}

/// A partial quotient never exceeds the full one.
proof fn lemma_partial_quotient(q: nat, a: nat, p: nat, b: nat, m: nat)
    requires
        m > 0,
        q * m <= a * p,
        p <= b,
    ensures
        q <= (a * b) / m,
{
    assert(a * p <= a * b) by (nonlinear_arith)
        requires
            p <= b,
    ;
    assert(q <= (a * b) / m) by (nonlinear_arith)
        requires
            m > 0,
            q * m <= a * b,
    ;
}

/// Whatever the ceiling, a quotient and remainder that the divider hands out
/// put the product together again, and the remainder is reduced:
/// `q * (cp * 10_000) + rem_hi * 10_000 + rem_lo == a * b` with
/// `rem_hi * 10_000 + rem_lo < cp * 10_000`.
pub proof fn lemma_mul_div_reconstructs(a: u64, b: u64, cp: u64, q_cap: u64)
    requires
        cp > 0,
    ensures
        mul_div_spec(a, b, cp, q_cap) matches Some((q, rem_hi, rem_lo)) ==> {
            &&& q * modulus(cp) + radix_value(rem_hi, rem_lo) == a * b
            &&& radix_value(rem_hi, rem_lo) < modulus(cp)
            &&& is_reduced(rem_hi, rem_lo, cp)
            &&& q == (a * b) as nat / modulus(cp)
            &&& q <= q_cap
        },
{
    let product = (a * b) as nat;
    let m = modulus(cp);
    if a == 0 || b == 0 {
        assert(a * b == 0) by (nonlinear_arith)
            requires
                a == 0 || b == 0,
        ;
        lemma_basic_div(0, m as int);
        assert(0u64 * m == 0);
    } else if product / m <= q_cap {
        let q = (product / m) as u64;
        let rem = product % m;
        lemma_fundamental_div_mod(product as int, m as int);
        lemma_mod_bound(product as int, m as int);
        assert(m * (product / m) == q * m) by (nonlinear_arith)
            requires
                q == product / m,
        ;
        assert(radix_value((rem / 10_000) as u64, (rem % 10_000) as u64) == rem);
    }
}

/// With the ceiling at `u64::MAX` and a quotient that fits in 64 bits, the
/// divider agrees with division in unbounded integers: it hands out `q` and a
/// reduced remainder with `q * (cp * 10_000) + rem_hi * 10_000 + rem_lo == a * b`.
pub proof fn lemma_mul_div_matches_wide_arithmetic(a: u64, b: u64, cp: u64)
    requires
        cp > 0,
        (a * b) as nat / modulus(cp) <= u64::MAX,
    ensures
        mul_div_spec(a, b, cp, u64::MAX) matches Some((q, rem_hi, rem_lo)) && {
            &&& q * modulus(cp) + radix_value(rem_hi, rem_lo) == a * b
            &&& radix_value(rem_hi, rem_lo) < modulus(cp)
        },
{
    lemma_mul_div_reconstructs(a, b, cp, u64::MAX);
    if a == 0 || b == 0 {
    } else {
        assert(mul_div_spec(a, b, cp, u64::MAX) is Some);
    }
}

/// The divider gives up exactly when the true quotient `floor(a * b / (cp * 10_000))`
/// is above the ceiling.
pub proof fn lemma_cap_honored(a: u64, b: u64, cp: u64, q_cap: u64)
    requires
        cp > 0,
    ensures
        mul_div_spec(a, b, cp, q_cap) is None <==> (a * b) as nat / modulus(cp) > q_cap,
{
    if a == 0 || b == 0 {
        assert(a * b == 0) by (nonlinear_arith)
            requires
                a == 0 || b == 0,
        ;
        lemma_basic_div(0, modulus(cp) as int);
    }
}

/// Computes `floor(a * b / (cp * 10_000))` and the exact remainder with 64
/// rounds of double-and-add, giving up as soon as the quotient passes `q_cap`.
pub fn mul_div_by_cp10k_capped(a: u64, b: u64, cp: u64, q_cap: u64) -> (r: Option<(u64, u64, u64)>)
    ensures
        r == mul_div_spec(a, b, cp, q_cap),
        cp > 0 ==> (r is None <==> (a * b) as nat / modulus(cp) > q_cap),
        cp > 0 ==> (r matches Some((q, rem_hi, rem_lo)) ==> {
            &&& q * modulus(cp) + radix_value(rem_hi, rem_lo) == a * b
            &&& is_reduced(rem_hi, rem_lo, cp)
            &&& q <= q_cap
        }),
{
    proof {
        if cp > 0 {
            lemma_mul_div_reconstructs(a, b, cp, q_cap);
            lemma_cap_honored(a, b, cp, q_cap);
        }
    }
    if a == 0 || b == 0 {
        return Some((0, 0, 0));
    }
    let (a_hi_all, a_lo) = split_base_10k(a);
    if cp == 0 {
        return None;
    }
    let adder_q: u64 = a_hi_all / cp;
    let adder_hi: u64 = a_hi_all % cp;
    let adder_lo: u64 = a_lo;

    let ghost m: nat = modulus(cp);
    let ghost full: nat = (a * b) as nat / m;
    proof {
        assert(a_hi_all == adder_q * cp + adder_hi) by (nonlinear_arith)
            requires
                cp > 0,
                adder_q == a_hi_all / cp,
                adder_hi == a_hi_all % cp,
        ;
        assert(adder_q * m == (adder_q * cp) * 10_000) by (nonlinear_arith)
            requires
                m == cp * 10_000,
        ;
    }

    let mut q: u64 = 0;
    let mut r_hi: u64 = 0;
    let mut r_lo: u64 = 0;
    let mut i: u64 = 64;
    while i > 0
        invariant
            i <= 64,
            cp > 0,
            m == modulus(cp),
            full == (a * b) as nat / m,
            is_reduced(r_hi, r_lo, cp),
            adder_hi < cp,
            adder_lo < 10_000,
            a == adder_q * m + radix_value(adder_hi, adder_lo),
            q * m + radix_value(r_hi, r_lo) == a * high_bits(b, i),
            q <= q_cap,
            mul_div_spec(a, b, cp, q_cap) == (if full <= q_cap {
                Some(
                    (
                        full as u64,
                        ((a * b) as nat % m / 10_000) as u64,
                        ((a * b) as nat % m % 10_000) as u64,
                    ),
                )
            } else {
                None
            }),
        decreases i,
    {
        let ghost p: nat = high_bits(b, i) as nat;
        let ghost v: nat = radix_value(r_hi, r_lo);
        let ghost q0: nat = q as nat;
        i = i - 1;
        proof {
            lemma_high_bits_step(b, i);
        }
        let bit: u64 = double_base_10k_reduce(&mut r_hi, &mut r_lo, cp);
        let ghost v1: nat = radix_value(r_hi, r_lo);
        proof {
            lemma_double_step(q0, v, a as nat, p, m, bit as nat, v1);
            lemma_partial_quotient(2 * q0 + bit as nat, a as nat, 2 * p, b as nat, m);
        }
        q = double_with_cap(q, bit, q_cap)?;
        if ((b >> i) & 1) != 0 {
            let ghost q1: nat = q as nat;
            proof {
                assert(a as nat * (2 * p + 1) >= (q1 + adder_q) * m) by {
                    assert(a as nat * (2 * p + 1) == a as nat * (2 * p) + a) by (nonlinear_arith);
                    assert((q1 + adder_q) * m == q1 * m + adder_q * m) by (nonlinear_arith);
                }
                lemma_partial_quotient(q1 + adder_q as nat, a as nat, 2 * p + 1, b as nat, m);
            }
            if let Some(new_q) = add_with_cap(q, adder_q, q_cap) {
                q = new_q;
            } else {
                return None;
            }
            let wraps: u64 = add_base_10k_mod(&mut r_hi, &mut r_lo, adder_hi, adder_lo, cp);
            proof {
                lemma_add_step(
                    q1,
                    v1,
                    a as nat,
                    2 * p,
                    m,
                    adder_q as nat,
                    radix_value(adder_hi, adder_lo),
                    wraps as nat,
                    radix_value(r_hi, r_lo),
                );
                lemma_partial_quotient(
                    q1 + adder_q as nat + wraps as nat,
                    a as nat,
                    2 * p + 1,
                    b as nat,
                    m,
                );
            }
            if wraps != 0 {
                q = add_with_cap(q, wraps, q_cap)?;
            }
        }
    }
    proof {
        let v: nat = radix_value(r_hi, r_lo);
        assert(high_bits(b, 0) == b) by {
            lemma_high_bits_step(b, 0);
        }
        lemma_fundamental_div_mod_converse((a * b) as int, m as int, q as int, v as int);
    }
    Some((q, r_hi, r_lo))
}

/// With a multiplicand below the modulus, a partial quotient is at most the
/// multiplier taken so far.
proof fn lemma_quotient_below_multiplier(q: nat, v: nat, rem: nat, p: nat, m: nat)
    requires
        rem < m,
        q * m + v == rem * p,
    ensures
        q <= p,
{
    if q > p {
        assert(q * m >= (p + 1) * m) by (nonlinear_arith)
            requires
                q >= p + 1,
        ;
        assert((p + 1) * m == p * m + m) by (nonlinear_arith);
        assert(rem * p <= m * p) by (nonlinear_arith)
            requires
                rem < m,
        ;
        assert(m * p == p * m) by (nonlinear_arith);
    }
}

/// Shifting a bit into a 64-bit quotient keeps it equal to the exact quotient
/// modulo `2^64`.
proof fn lemma_shift_in(q: u64, exact: nat, bit: u64)
    requires
        q == exact % 0x1_0000_0000_0000_0000,
        bit <= 1,
    ensures
        (q << 1) | bit == (2 * exact + bit) % 0x1_0000_0000_0000_0000,
{
    assert((q << 1) | bit == (2 * q + bit) % 0x1_0000_0000_0000_0000) by (bit_vector)
        requires
            bit <= 1,
    ;
    let hi = exact / 0x1_0000_0000_0000_0000;
    assert(exact == 0x1_0000_0000_0000_0000 * hi + q);
    assert(2 * exact + bit == 0x1_0000_0000_0000_0000 * (2 * hi) + (2 * q + bit));
    lemma_mod_multiples_vanish(2 * hi as int, (2 * q + bit) as int, 0x1_0000_0000_0000_0000);
}

/// A wrapping addition to a 64-bit quotient keeps it equal to the exact
/// quotient modulo `2^64`.
proof fn lemma_wrapping_fold(q: u64, exact: nat, add: u64)
    requires
        q == exact % 0x1_0000_0000_0000_0000,
    ensures
        (if q + add > u64::MAX {
            q + add - 0x1_0000_0000_0000_0000
        } else {
            q + add
        }) == (exact + add) % 0x1_0000_0000_0000_0000,
{
    let hi = exact / 0x1_0000_0000_0000_0000;
    assert(exact == 0x1_0000_0000_0000_0000 * hi + q);
    if q + add > u64::MAX {
        let rest = q + add - 0x1_0000_0000_0000_0000;
        assert(exact + add == 0x1_0000_0000_0000_0000 * (hi + 1) + rest);
        lemma_fundamental_div_mod_converse(
            (exact + add) as int,
            0x1_0000_0000_0000_0000,
            (hi + 1) as int,
            rest as int,
        );
    } else {
        lemma_fundamental_div_mod_converse(
            (exact + add) as int,
            0x1_0000_0000_0000_0000,
            hi as int,
            (q + add) as int,
        );
    }
}

/// Computes `floor(rem * k / (cp * 10_000))` for the remainder
/// `rem = rem_hi * 10_000 + rem_lo`, by the same 64 rounds of double-and-add
/// as the capped divider.
///
/// For a reduced remainder the result is at most `k`, so no ceiling is needed.
/// A remainder that is not reduced is reduced first, and the whole multiples
/// of the modulus that it holds are folded into the quotient by wrapping
/// addition: the result is then the quotient modulo `2^64`.
pub fn remainder_mul_div(rem_hi: u64, rem_lo: u64, k: u64, cp: u64) -> (r: u64)
    requires
        k != 0 ==> cp > 0 && rem_lo < 10_000,
    ensures
        k == 0 ==> r == 0,
        k != 0 ==> r == remainder_mul_div_spec(rem_hi, rem_lo, k, cp) % 0x1_0000_0000_0000_0000,
        is_reduced(rem_hi, rem_lo, cp) ==> r == remainder_mul_div_spec(rem_hi, rem_lo, k, cp),
        is_reduced(rem_hi, rem_lo, cp) ==> r <= k,
{
    if k == 0 {
        proof {
            assert(radix_value(rem_hi, rem_lo) * k == 0) by (nonlinear_arith)
                requires
                    k == 0,
            ;
            if cp > 0 {
                lemma_basic_div(0, modulus(cp) as int);
            }
        }
        return 0;
    }
    let adder_q: u64 = rem_hi / cp;
    let adder_hi: u64 = rem_hi % cp;
    let adder_lo: u64 = rem_lo;
    let ghost m: nat = modulus(cp);
    let ghost rem: nat = radix_value(rem_hi, rem_lo);
    let ghost reduced: bool = is_reduced(rem_hi, rem_lo, cp);
    proof {
        assert(rem_hi == adder_q * cp + adder_hi) by (nonlinear_arith)
            requires
                cp > 0,
                adder_q == rem_hi / cp,
                adder_hi == rem_hi % cp,
        ;
        assert(adder_q * m == (adder_q * cp) * 10_000) by (nonlinear_arith)
            requires
                m == cp * 10_000,
        ;
        if reduced {
            lemma_basic_div(rem_hi as int, cp as int);
        }
    }

    let mut q: u64 = 0;
    let mut r_hi: u64 = 0;
    let mut r_lo: u64 = 0;
    let mut i: u64 = 64;
    let ghost mut exact: nat = 0;
    proof {
        assert(rem * high_bits(k, 64) == 0) by (nonlinear_arith)
            requires
                high_bits(k, 64) == 0,
        ;
    }
    while i > 0
        invariant
            i <= 64,
            cp > 0,
            m == modulus(cp),
            rem == adder_q * m + radix_value(adder_hi, adder_lo),
            reduced ==> adder_q == 0,
            is_reduced(r_hi, r_lo, cp),
            is_reduced(adder_hi, adder_lo, cp),
            exact * m + radix_value(r_hi, r_lo) == rem * high_bits(k, i),
            q == exact % 0x1_0000_0000_0000_0000,
            reduced ==> exact <= high_bits(k, i),
        decreases i,
    {
        let ghost p: nat = high_bits(k, i) as nat;
        let ghost v: nat = radix_value(r_hi, r_lo);
        let ghost e0: nat = exact;
        i = i - 1;
        proof {
            lemma_high_bits_step(k, i);
        }
        let bit: u64 = double_base_10k_reduce(&mut r_hi, &mut r_lo, cp);
        let ghost v1: nat = radix_value(r_hi, r_lo);
        proof {
            lemma_double_step(e0, v, rem, p, m, bit as nat, v1);
            if reduced {
                lemma_quotient_below_multiplier(2 * e0 + bit as nat, v1, rem, 2 * p, m);
            }
            lemma_shift_in(q, e0, bit);
            exact = 2 * e0 + bit as nat;
        }
        q = (q << 1) | bit;
        if ((k >> i) & 1) != 0 {
            let ghost e1: nat = exact;
            proof {
                lemma_wrapping_fold(q, e1, adder_q);
            }
            if adder_q != 0 {
                q = q.wrapping_add(adder_q);
            }
            let wraps: u64 = add_base_10k_mod(&mut r_hi, &mut r_lo, adder_hi, adder_lo, cp);
            proof {
                let v2: nat = radix_value(r_hi, r_lo);
                lemma_wrapping_fold(q, e1 + adder_q as nat, wraps);
                lemma_add_step(
                    e1,
                    v1,
                    rem,
                    2 * p,
                    m,
                    adder_q as nat,
                    radix_value(adder_hi, adder_lo),
                    wraps as nat,
                    v2,
                );
                exact = e1 + adder_q as nat + wraps as nat;
                if reduced {
                    lemma_quotient_below_multiplier(exact, v2, rem, 2 * p + 1, m);
                }
            }
            if wraps != 0 {
                q = q.wrapping_add(wraps);
            }
        }
    }
    proof {
        let v: nat = radix_value(r_hi, r_lo);
        assert(high_bits(k, 0) == k) by {
            lemma_high_bits_step(k, 0);
        }
        lemma_fundamental_div_mod_converse((rem * k) as int, m as int, exact as int, v as int);
    }
    q
}

} // verus!
