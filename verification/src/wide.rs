//! A 256-bit unsigned number held as 32 little-endian bytes: the form in
//! which wide values pass between this library and wide-integer arithmetic.

use vstd::prelude::*;

verus! {

/// The number that the bytes of `s` from position `i` on stand for, least
/// significant byte first.
pub open spec fn le_value_from(s: Seq<u8>, i: nat) -> nat
    decreases s.len() - i,
{
    if i >= s.len() {
        0
    } else {
        s[i as int] as nat + 256 * le_value_from(s, i + 1)
    }
}

/// `2^256`, the first number that 32 bytes cannot hold.
pub open spec fn wide_limit() -> nat {
    0x1_0000_0000_0000_0000_0000_0000_0000_0000_0000_0000_0000_0000_0000_0000_0000_0000_0000nat
}

/// A number below `2^256` as 32 bytes, least significant first.
#[derive(Clone, Copy)]
pub struct Wide256 {
    pub bytes: [u8; 32],
}

impl View for Wide256 {
    type V = nat;

    /// The number that the bytes stand for.
    open spec fn view(&self) -> nat {
        le_value_from(self.bytes@, 0)
    }
}

/// Bytes that are all zero from position `i` on stand for zero.
proof fn lemma_zero_tail(s: Seq<u8>, i: nat)
    requires
        forall|j: int| i <= j < s.len() ==> s[j] == 0,
    ensures
        le_value_from(s, i) == 0,
    decreases s.len() - i,
{
    if i < s.len() {
        lemma_zero_tail(s, i + 1);
    }
}

/// A byte that is not zero at position `j` makes every value that includes
/// it positive.
proof fn lemma_nonzero_tail(s: Seq<u8>, i: nat, j: nat)
    requires
        i <= j < s.len(),
        s[j as int] != 0,
    ensures
        le_value_from(s, i) > 0,
    decreases j - i,
{
    if i < j {
        lemma_nonzero_tail(s, i + 1, j);
    }
}

/// The products that the wide calculators form from 64-bit factors and a rate
/// of at most 10 000 basis points stay below `2^256`.
pub proof fn lemma_factors_fit(a: u64, b: u64, rate: u64)
    requires
        rate <= 10_000,
    ensures
        a * b < wide_limit(),
        a * b * rate < wide_limit(),
{
    assert(a * b <= 0xffff_ffff_ffff_fffe_0000_0000_0000_0001) by (nonlinear_arith)
        requires
            a <= 0xffff_ffff_ffff_ffff,
            b <= 0xffff_ffff_ffff_ffff,
    ;
    assert(a * b * rate <= 0xffff_ffff_ffff_fffe_0000_0000_0000_0001 * 10_000)
        by (nonlinear_arith)
        requires
            0 <= a * b <= 0xffff_ffff_ffff_fffe_0000_0000_0000_0001,
            rate <= 10_000,
    ;
}

impl Wide256 {
    /// The number held in the first eight bytes.
    pub open spec fn low(&self) -> nat {
        let s = self.bytes@;
        (s[0] + 0x100 * s[1] + 0x1_0000 * s[2] + 0x100_0000 * s[3] + 0x1_0000_0000 * s[4]
            + 0x100_0000_0000 * s[5] + 0x1_0000_0000_0000 * s[6] + 0x100_0000_0000_0000
            * s[7]) as nat
    }

    /// The number held in the bytes above the first eight.
    pub open spec fn high(&self) -> nat {
        le_value_from(self.bytes@, 8)
    }

    /// The value is the low 64 bits plus `2^64` times the rest.
    pub proof fn lemma_low_high(&self)
        ensures
            self@ == self.low() + 0x1_0000_0000_0000_0000 * self.high(),
            self.low() <= u64::MAX,
            self.low() == self@ % 0x1_0000_0000_0000_0000,
            self@ <= u64::MAX <==> self.high() == 0,
    {
        reveal_with_fuel(le_value_from, 9);
    }

    /// Whether the number fits in 64 bits.
    pub fn fits_u64(&self) -> (fits: bool)
        ensures
            fits == (self@ <= u64::MAX),
    {
        let mut i: usize = 8;
        while i < 32
            invariant
                8 <= i <= 32,
                forall|j: int| 8 <= j < i ==> self.bytes@[j] == 0,
            decreases 32 - i,
        {
            if self.bytes[i] != 0 {
                proof {
                    self.lemma_low_high();
                    lemma_nonzero_tail(self.bytes@, 8, i as nat);
                }
                return false;
            }
            i = i + 1;
        }
        proof {
            self.lemma_low_high();
            lemma_zero_tail(self.bytes@, 8);
        }
        true
    }

    /// The low 64 bits of the number.
    pub fn low_u64(&self) -> (low: u64)
        ensures
            low == self@ % 0x1_0000_0000_0000_0000,
            self@ <= u64::MAX ==> low == self@,
    {
        proof {
            self.lemma_low_high();
        }
        let b0: u64 = self.bytes[0] as u64;
        let b1: u64 = self.bytes[1] as u64;
        let b2: u64 = self.bytes[2] as u64;
        let b3: u64 = self.bytes[3] as u64;
        let b4: u64 = self.bytes[4] as u64;
        let b5: u64 = self.bytes[5] as u64;
        let b6: u64 = self.bytes[6] as u64;
        let b7: u64 = self.bytes[7] as u64;
        let mut out: u64 = 0;
        out |= b0;
        out |= b1 << 8;
        out |= b2 << 16;
        out |= b3 << 24;
        out |= b4 << 32;
        out |= b5 << 40;
        out |= b6 << 48;
        out |= b7 << 56;
        assert(out == b0 + 0x100 * b1 + 0x1_0000 * b2 + 0x100_0000 * b3 + 0x1_0000_0000 * b4
            + 0x100_0000_0000 * b5 + 0x1_0000_0000_0000 * b6 + 0x100_0000_0000_0000 * b7)
            by (bit_vector)
            requires
                b0 < 256 && b1 < 256 && b2 < 256 && b3 < 256,
                b4 < 256 && b5 < 256 && b6 < 256 && b7 < 256,
                out == 0 | b0 | (b1 << 8) | (b2 << 16) | (b3 << 24) | (b4 << 32) | (b5 << 40) | (b6
                    << 48) | (b7 << 56),
        ;
        out
    }
}

} // verus!
