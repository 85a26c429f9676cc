//! Quotient accumulation under a ceiling, and the saturating multiply.

use vstd::prelude::*;

verus! {

/// The smaller of two numbers.
pub open spec fn min_nat(x: nat, y: nat) -> nat {
    if x <= y {
        x
    } else {
        y
    }
}

/// Adds `add` to `current` unless the sum passes `cap`.
///
/// A zero addend hands `current` back whatever the ceiling is.
pub fn add_with_cap(current: u64, add: u64, cap: u64) -> (r: Option<u64>)
    ensures
        r == (if add == 0 {
            Some(current)
        } else if current + add <= cap {
            Some((current + add) as u64)
        } else {
            None
        }),
{
    if add == 0 {
        return Some(current);
    }
    if add > cap {
        return None;
    }
    if current > cap - add {
        None
    } else {
        Some(current + add)
    }
}

/// Shifts `bit` into `q` from the right unless `2 * q + bit` passes `cap`.
pub fn double_with_cap(q: u64, bit: u64, cap: u64) -> (r: Option<u64>)
    requires
        bit <= 1,
    ensures
        r == (if 2 * q + bit <= cap {
            Some((2 * q + bit) as u64)
        } else {
            None
        }),
{
    if bit > cap {
        return None;
    }
    let allowed: u64 = (cap - bit) >> 1;
    assert(allowed == (cap - bit) as u64 / 2) by (bit_vector)
        requires
            allowed == ((cap - bit) as u64) >> 1,
    ;
    if q > allowed {
        None
    } else {
        assert((q << 1) | bit == 2 * q + bit) by (bit_vector)
            requires
                q <= 0x7fff_ffff_ffff_ffff,
                bit <= 1,
        ;
        Some((q << 1) | bit)
    }
}

/// Replacing a doubled addend that has passed the ceiling by the ceiling
/// itself does not change the capped sum.
proof fn lemma_capped_addend(res: nat, a: nat, half: nat, cap: nat)
    requires
        2 * a > cap,
    ensures
        min_nat(res + cap * half, cap) == min_nat(res + (2 * a) * half, cap),
{
    if half == 0 {
        assert(cap * half == 0) by (nonlinear_arith)
            requires
                half == 0,
        ;
        assert((2 * a) * half == 0) by (nonlinear_arith)
            requires
                half == 0,
        ;
    } else {
        assert(cap * half >= cap) by (nonlinear_arith)
            requires
                half >= 1,
        ;
        assert((2 * a) * half >= 2 * a) by (nonlinear_arith)
            requires
                half >= 1,
        ;
    }
}

/// Splitting off the lowest bit of the multiplier.
proof fn lemma_split_low_bit(a: nat, b: nat)
    ensures
        b % 2 == 0 ==> a * b == (2 * a) * (b / 2),
        b % 2 == 1 ==> a * b == (2 * a) * (b / 2) + a,
{
    let half = b / 2;
    if b % 2 == 0 {
        assert(a * b == (2 * a) * half) by (nonlinear_arith)
            requires
                b == 2 * half,
        ;
    } else {
        assert(a * b == (2 * a) * half + a) by (nonlinear_arith)
            requires
                b == 2 * half + 1,
        ;
    }
}

/// Computes `min(a * b, cap)` by shift-and-add, without a product wider than
/// 64 bits.
pub fn mul_cap(a: u64, b: u64, cap: u64) -> (r: u64)
    ensures
        r == min_nat((a * b) as nat, cap as nat),
{
    if a == 0 || b == 0 {
        assert(a * b == 0) by (nonlinear_arith)
            requires
                a == 0 || b == 0,
        ;
        return 0;
    }
    let mut shifted: u64 = a;
    let mut rest: u64 = b;
    let mut res: u64 = 0;
    while rest != 0 && res < cap
        invariant
            res <= cap,
            min_nat((res + shifted * rest) as nat, cap as nat) == min_nat(
                (a * b) as nat,
                cap as nat,
            ),
        decreases rest,
    {
        let ghost half: nat = (rest / 2) as nat;
        proof {
            lemma_split_low_bit(shifted as nat, rest as nat);
            assert(rest & 1 == rest % 2) by (bit_vector);
            assert(rest >> 1 == rest / 2) by (bit_vector);
            assert(cap >> 1 == cap / 2) by (bit_vector);
        }
        if (rest & 1) != 0 {
            let room: u64 = cap.saturating_sub(res);
            if shifted >= room {
                proof {
                    assert(shifted * rest >= shifted) by (nonlinear_arith)
                        requires
                            rest >= 1,
                    ;
                }
                return cap;
            }
            res = res + shifted;
        }
        assert(min_nat((res + (2 * shifted) * half) as nat, cap as nat) == min_nat(
            (a * b) as nat,
            cap as nat,
        ));
        if shifted > (cap >> 1) {
            proof {
                lemma_capped_addend(res as nat, shifted as nat, half, cap as nat);
            }
            shifted = cap;
        } else {
            assert(shifted << 1 == 2 * shifted) by (bit_vector)
                requires
                    shifted <= 0x7fff_ffff_ffff_ffff,
            ;
            shifted = shifted << 1;
        }
        rest = rest >> 1;
    }
    proof {
        if rest == 0 {
            assert(shifted * rest == 0) by (nonlinear_arith)
                requires
                    rest == 0,
            ;
        }
    }
    if res > cap {
        cap
    } else {
        res
    }
}

} // verus!
