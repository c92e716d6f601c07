//! A fixed-width 128-bit unsigned integer built from two 64-bit halves.
//!
//! Every operation is specified against the mathematical 128-bit value
//! `self@`, so callers reason about one wide register rather than about the
//! half-splitting done inside.

use vstd::prelude::*;
use vstd::arithmetic::power2::{pow2, lemma_pow2_unfold, lemma2_to64};

verus! {

/// A 128-bit unsigned value as two 64-bit halves, `lo` least significant.
#[derive(Clone, Copy, PartialEq, Eq, Structural)]
pub struct MyU128 {
    pub hi: u64,
    pub lo: u64,
}

impl View for MyU128 {
    type V = u128;

    open spec fn view(&self) -> u128 {
        ((self.hi as u128) << 64) | (self.lo as u128)
    }
}

/// The successor of `v`, wrapping around at the 128-bit boundary.
pub open spec fn wrapping_inc(v: u128) -> u128 {
    if v == u128::MAX {
        0
    } else {
        (v + 1) as u128
    }
}

/// The number of binary digits of `x`: the position of its highest set bit,
/// plus one; zero for zero.
pub open spec fn bit_len(x: nat) -> nat
    decreases x,
{
    if x == 0 {
        0
    } else {
        1 + bit_len(x / 2)
    }
}

/// The diagnostic bit statistic of a 128-bit value: the bit length of the
/// high half offset by 64 whenever the high half is in use, else the bit
/// length of the low half. Deliberately not a population count: it reports
/// how far into the register the value reaches.
pub open spec fn wide_bit_stat(v: u128) -> nat {
    if v >> 64 != 0 {
        64 + bit_len(((v >> 64) as u64) as nat)
    } else {
        bit_len((v as u64) as nat)
    }
}

proof fn lemma_bit_len_bound(x: nat, k: nat)
    requires
        x < pow2(k),
    ensures
        bit_len(x) <= k,
    decreases k,
{
    if x == 0 {
    } else {
        if k == 0 {
            assert(pow2(0) == 1) by {
                lemma2_to64();
            }
        } else {
            lemma_pow2_unfold(k);
            lemma_bit_len_bound(x / 2, (k - 1) as nat);
        }
    }
}

/// The bit length of a 64-bit value never exceeds 64.
pub proof fn lemma_bit_len_le_64(x: u64)
    ensures
        bit_len(x as nat) <= 64,
{
    lemma2_to64();
    lemma_bit_len_bound(x as nat, 64);
}

/// Conjoining a value with its own complement clears every bit.
pub proof fn lemma_and_with_complement(v: u128)
    ensures
        v & !v == 0,
{
    assert(v & !v == 0) by (bit_vector);
}

/// A right shift by `k < 64` discards exactly the low `k` bits: shifting
/// the result back left and restoring those `k` bits recovers the value.
pub proof fn lemma_shift_right_recovers(v: u128, k: u64)
    requires
        k < 64,
    ensures
        ((v >> k) << k) | (v & (((1u128 << k) - 1) as u128)) == v,
{
    assert(((v >> k) << k) | (v & (((1u128 << k) - 1) as u128)) == v) by (bit_vector)
        requires
            k < 64,
    ;
}

impl MyU128 {
    /// Builds the value `lo`, with the high half clear.
    pub fn new(lo: u64) -> (r: Self)
        ensures
            r.hi == 0,
            r.lo == lo,
            r@ == lo as u128,
    {
        proof {
            assert((((0u64 as u128) << 64) | (lo as u128)) == lo as u128) by (bit_vector);
        }
        MyU128 { hi: 0, lo }
    }

    /// Returns `self + 1`; a carry out of an all-ones low half moves into
    /// the high half, and the all-ones 128-bit value wraps to zero. The
    /// generator keeps its state words far below the boundary for every
    /// supported target index.
    pub fn add_one(&self) -> (r: Self)
        ensures
            r@ == wrapping_inc(self@),
    {
        if self.lo == u64::MAX {
            if self.hi == u64::MAX {
                proof {
                    let h: u64 = self.hi;
                    let l: u64 = self.lo;
                    assert(h == 0xffff_ffff_ffff_ffffu64 && l == 0xffff_ffff_ffff_ffffu64
                        ==> (((h as u128) << 64) | (l as u128)) == 0xffff_ffff_ffff_ffff_ffff_ffff_ffff_ffffu128
                            && (((0u64 as u128) << 64) | (0u64 as u128)) == 0u128) by (bit_vector);
                }
                MyU128 { hi: 0, lo: 0 }
            } else {
                let hi2: u64 = self.hi + 1;
                proof {
                    let h: u64 = self.hi;
                    let l: u64 = self.lo;
                    assert(h < 0xffff_ffff_ffff_ffffu64 && l == 0xffff_ffff_ffff_ffffu64
                        ==> (((h as u128) << 64) | (l as u128)) != 0xffff_ffff_ffff_ffff_ffff_ffff_ffff_ffffu128
                            && (((((h + 1) as u64) as u128) << 64) | (0u64 as u128))
                                == ((((h as u128) << 64) | (l as u128)) + 1) as u128) by (bit_vector);
                }
                MyU128 { hi: hi2, lo: 0 }
            }
        } else {
            let lo2: u64 = self.lo + 1;
            proof {
                let h: u64 = self.hi;
                let l: u64 = self.lo;
                assert(l < 0xffff_ffff_ffff_ffffu64
                    ==> (((h as u128) << 64) | (l as u128)) != 0xffff_ffff_ffff_ffff_ffff_ffff_ffff_ffffu128
                        && (((h as u128) << 64) | (((l + 1) as u64) as u128))
                            == ((((h as u128) << 64) | (l as u128)) + 1) as u128) by (bit_vector);
            }
            MyU128 { hi: self.hi, lo: lo2 }
        }
    }

    /// Halfwise bitwise conjunction.
    pub fn and(self, rhs: Self) -> (r: Self)
        ensures
            r@ == (self@ & rhs@),
    {
        proof {
            let ah: u64 = self.hi;
            let al: u64 = self.lo;
            let bh: u64 = rhs.hi;
            let bl: u64 = rhs.lo;
            assert(((((ah & bh) as u128) << 64) | ((al & bl) as u128))
                == ((((ah as u128) << 64) | (al as u128)) & (((bh as u128) << 64) | (bl as u128)))) by (bit_vector);
        }
        MyU128 { hi: self.hi & rhs.hi, lo: self.lo & rhs.lo }
    }

    /// Halfwise bitwise disjunction.
    pub fn or(self, rhs: Self) -> (r: Self)
        ensures
            r@ == (self@ | rhs@),
    {
        proof {
            let ah: u64 = self.hi;
            let al: u64 = self.lo;
            let bh: u64 = rhs.hi;
            let bl: u64 = rhs.lo;
            assert(((((ah | bh) as u128) << 64) | ((al | bl) as u128))
                == ((((ah as u128) << 64) | (al as u128)) | (((bh as u128) << 64) | (bl as u128)))) by (bit_vector);
        }
        MyU128 { hi: self.hi | rhs.hi, lo: self.lo | rhs.lo }
    }

    /// Halfwise bitwise complement.
    pub fn not(self) -> (r: Self)
        ensures
            r@ == !self@,
    {
        proof {
            let h: u64 = self.hi;
            let l: u64 = self.lo;
            assert(((((!h) as u128) << 64) | ((!l) as u128))
                == !(((h as u128) << 64) | (l as u128))) by (bit_vector);
        }
        MyU128 { hi: !self.hi, lo: !self.lo }
    }

    /// Halfwise bitwise exclusive or, in place.
    pub fn xor_assign(&mut self, rhs: Self)
        ensures
            final(self)@ == (old(self)@ ^ rhs@),
    {
        proof {
            let ah: u64 = self.hi;
            let al: u64 = self.lo;
            let bh: u64 = rhs.hi;
            let bl: u64 = rhs.lo;
            assert(((((ah ^ bh) as u128) << 64) | ((al ^ bl) as u128))
                == ((((ah as u128) << 64) | (al as u128)) ^ (((bh as u128) << 64) | (bl as u128)))) by (bit_vector);
        }
        self.hi = self.hi ^ rhs.hi;
        self.lo = self.lo ^ rhs.lo;
    }

    /// Shifts the 128-bit value right by `n` bits: the low `n` bits of the
    /// high half migrate into the top of the low half. A shift by 64 or
    /// more is not supported, and a zero shift takes the spill-free path
    /// so that no 64-bit register is ever shifted by 64.
    pub fn shift_right(self, n: usize) -> (r: Self)
        requires
            n < 64,
        ensures
            r@ == (self@ >> n),
    {
        if n == 0 {
            proof {
                let v: u128 = self@;
                assert(v >> 0usize == v) by (bit_vector);
            }
            self
        } else {
            proof {
                let h: u64 = self.hi;
                let l: u64 = self.lo;
                let m: u64 = n as u64;
                assert(1 <= m < 64
                    ==> 1u64 << m >= 1
                        && ((((h >> m) as u128) << 64)
                                | (((l >> m) | ((h & (((1u64 << m) - 1) as u64)) << ((64 - m) as u64))) as u128))
                            == ((((h as u128) << 64) | (l as u128)) >> m)) by (bit_vector);
                assert(self@ >> (n as u64) == self@ >> n);
            }
            let spill: u64 = (self.hi & ((1u64 << n) - 1)) << (64 - n);
            MyU128 { hi: self.hi >> n, lo: (self.lo >> n) | spill }
        }
    }

    /// The diagnostic bit statistic: if the high half is nonzero, 64 plus
    /// the high half's bit length, else the low half's bit length. This is
    /// a reach measure, not a population count.
    pub fn bit_count(&self) -> (r: usize)
        ensures
            r as nat == wide_bit_stat(self@),
    {
        proof {
            let h: u64 = self.hi;
            let l: u64 = self.lo;
            assert(((((h as u128) << 64) | (l as u128)) >> 64) == h as u128) by (bit_vector);
            assert((((h as u128) << 64) | (l as u128)) as u64 == l) by (bit_vector);
        }
        let mut r: usize = 0;
        let mut tmp: u64 = self.lo;
        if self.hi != 0 {
            r = 64;
            tmp = self.hi;
        }
        let ghost base: nat = r as nat;
        let ghost t0: u64 = tmp;
        proof {
            lemma_bit_len_le_64(t0);
        }
        while tmp != 0
            invariant
                r as nat + bit_len(tmp as nat) == base + bit_len(t0 as nat),
                base <= 64,
                bit_len(t0 as nat) <= 64,
            decreases tmp,
        {
            proof {
                let t: u64 = tmp;
                assert(t >> 1u64 == t / 2) by (bit_vector);
            }
            r = r + 1;
            tmp = tmp >> 1;
        }
        r
    }
}

} // verus!
