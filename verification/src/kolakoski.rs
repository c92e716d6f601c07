//! The incremental Kolakoski generator.
//!
//! The generator never stores the sequence. Two 128-bit words `x` and `y`
//! encode enough of its run structure that one term costs a handful of
//! bitwise operations; the low bit of `x` before a step tells whether the
//! term just finalized was a 1. The mathematical state and its one-term
//! recurrence are given by `KState` and `k_step`, and every advancing
//! operation is specified as an iterate of `k_step`.

use vstd::prelude::*;
use vstd::arithmetic::mul::lemma_mul_upper_bound;
use crate::wide::{MyU128, wrapping_inc};

verus! {

/// The mathematical state of the generator: the two 128-bit state words,
/// the current index, the running count of terms equal to 1, and the
/// deviation extremum since the last reset, kept as the exact fraction
/// `dev_num / dev_den`.
pub ghost struct KState {
    pub x: u128,
    pub y: u128,
    pub idx: nat,
    pub count: nat,
    pub dev_num: nat,
    pub dev_den: nat,
}

/// The state of a freshly constructed generator: index 1, whose single
/// term is a 1.
pub open spec fn k_init() -> KState {
    KState { x: 0, y: 0, idx: 1, count: 1, dev_num: 0, dev_den: 1 }
}

/// One term of the bit-parallel recurrence, statistics included: the low
/// bit of `x` finalizes the new term; `f` isolates the trailing run of set
/// bits of `y` together with the bit the carry flips; `x` flips at `f`;
/// `y` steps by one and reabsorbs from `f` under the shifted new `x`. The
/// deviation extremum takes the new `|count - idx / 2| / idx` whenever
/// that fraction exceeds it.
pub open spec fn k_step(s: KState) -> KState {
    let term_bit = (s.x & 1) as nat;
    let f = s.y & !wrapping_inc(s.y);
    let x2 = s.x ^ f;
    let y2 = wrapping_inc(s.y) | (f & (x2 >> 1));
    let idx2 = s.idx + 1;
    let count2 = s.count + term_bit;
    let half = idx2 / 2;
    let diff = if count2 >= half {
        (count2 - half) as nat
    } else {
        (half - count2) as nat
    };
    let better = diff * s.dev_den > s.dev_num * idx2;
    KState {
        x: x2,
        y: y2,
        idx: idx2,
        count: count2,
        dev_num: if better {
            diff
        } else {
            s.dev_num
        },
        dev_den: if better {
            idx2
        } else {
            s.dev_den
        },
    }
}

/// The `n`-th iterate of the one-term recurrence.
pub open spec fn k_step_n(s: KState, n: nat) -> KState
    decreases n,
{
    if n == 0 {
        s
    } else {
        k_step(k_step_n(s, (n - 1) as nat))
    }
}

/// The state with its deviation extremum cleared.
pub open spec fn k_reset_dev(s: KState) -> KState {
    KState { dev_num: 0, dev_den: 1, ..s }
}

/// Well-formedness of a generator state: the index has started, the count
/// counts a subset of the terms, and the deviation fraction is a genuine
/// fraction no greater than one.
pub open spec fn k_wf(s: KState) -> bool {
    &&& 1 <= s.idx
    &&& s.count <= s.idx
    &&& 1 <= s.dev_den
    &&& s.dev_num <= s.dev_den
}

/// One step preserves well-formedness.
pub proof fn lemma_k_step_wf(s: KState)
    requires
        k_wf(s),
    ensures
        k_wf(k_step(s)),
{
    let xv: u128 = s.x;
    assert(xv & 1 <= 1) by (bit_vector);
}

/// Any number of steps preserves well-formedness.
pub proof fn lemma_k_step_n_wf(s: KState, n: nat)
    requires
        k_wf(s),
    ensures
        k_wf(k_step_n(s, n)),
    decreases n,
{
    if n > 0 {
        lemma_k_step_n_wf(s, (n - 1) as nat);
        lemma_k_step_wf(k_step_n(s, (n - 1) as nat));
    }
}

/// `n` steps advance the index by exactly `n`.
pub proof fn lemma_k_step_n_idx(s: KState, n: nat)
    ensures
        k_step_n(s, n).idx == s.idx + n,
    decreases n,
{
    if n > 0 {
        lemma_k_step_n_idx(s, (n - 1) as nat);
    }
}

/// Iterates compose: `a` steps followed by `b` steps are `a + b` steps.
pub proof fn lemma_k_step_n_add(s: KState, a: nat, b: nat)
    ensures
        k_step_n(k_step_n(s, a), b) == k_step_n(s, a + b),
    decreases b,
{
    if b > 0 {
        lemma_k_step_n_add(s, a, (b - 1) as nat);
    }
}

/// Advancing one term at a time agrees with advancing in a batch: a single
/// step followed by `n` further steps reaches exactly the state of one
/// batch of `n + 1` steps.
pub proof fn lemma_unit_batch_equivalence(s: KState, n: nat)
    ensures
        k_step_n(k_step(s), n) == k_step_n(s, n + 1),
{
    assert(k_step(s) == k_step_n(s, 1)) by {
        reveal_with_fuel(k_step_n, 2);
    }
    lemma_k_step_n_add(s, 1, n);
}

/// Advancing to an intermediate index and on to a final index reaches
/// exactly the state of advancing to the final index directly.
pub proof fn lemma_advance_in_stages(s: KState, mid: nat, last: nat)
    requires
        s.idx <= mid <= last,
    ensures
        k_step_n(k_step_n(s, (mid - s.idx) as nat), (last - mid) as nat)
            == k_step_n(s, (last - s.idx) as nat),
{
    lemma_k_step_n_add(s, (mid - s.idx) as nat, (last - mid) as nat);
}

proof fn lemma_k_step_n_count_ge(s: KState, n: nat)
    ensures
        k_step_n(s, n).count >= s.count,
    decreases n,
{
    if n > 0 {
        lemma_k_step_n_count_ge(s, (n - 1) as nat);
    }
}

/// The running count of ones never decreases as the generator advances,
/// and it never exceeds the index: it counts a subset of the terms.
pub proof fn lemma_count_monotone_bounded(s: KState, a: nat, b: nat)
    requires
        k_wf(s),
        a <= b,
    ensures
        k_step_n(s, a).count <= k_step_n(s, b).count,
        k_step_n(s, b).count <= k_step_n(s, b).idx,
{
    lemma_k_step_n_add(s, a, (b - a) as nat);
    lemma_k_step_n_count_ge(k_step_n(s, a), (b - a) as nat);
    lemma_k_step_n_wf(s, b);
}

/// The generator: two wide state words, the index reached so far, the
/// count of terms equal to 1 among the first `idx`, and the deviation
/// extremum since the last reset as the exact fraction
/// `dev_num / dev_den`.
pub struct Kolakoski {
    pub x: MyU128,
    pub y: MyU128,
    pub idx: u64,
    pub count: u64,
    pub dev_num: u64,
    pub dev_den: u64,
}

impl View for Kolakoski {
    type V = KState;

    open spec fn view(&self) -> KState {
        KState {
            x: self.x@,
            y: self.y@,
            idx: self.idx as nat,
            count: self.count as nat,
            dev_num: self.dev_num as nat,
            dev_den: self.dev_den as nat,
        }
    }
}

impl Kolakoski {
    /// Well-formedness of the generator, lifted from the state model.
    pub open spec fn wf(self) -> bool {
        k_wf(self@)
    }

    /// A fresh generator at index 1, whose one term is a 1.
    pub fn new() -> (r: Self)
        ensures
            r@ == k_init(),
            r.wf(),
    {
        Kolakoski {
            x: MyU128::new(0),
            y: MyU128::new(0),
            idx: 1,
            count: 1,
            dev_num: 0,
            dev_den: 1,
        }
    }

    /// Advances the sequence by one term and folds the new term into the
    /// running statistics.
    pub fn next(&mut self)
        requires
            old(self).wf(),
            old(self).idx < u64::MAX,
        ensures
            final(self)@ == k_step(old(self)@),
            final(self).wf(),
    {
        proof {
            lemma_k_step_wf(old(self)@);
            let xh: u64 = self.x.hi;
            let xl: u64 = self.x.lo;
            assert(((((xh as u128) << 64) | (xl as u128)) & 1) == ((xl & 1) as u128)) by (bit_vector);
            assert(xl & 1 <= 1) by (bit_vector);
        }
        self.idx = self.idx + 1;
        let term_bit: u64 = self.x.lo & 1;
        self.count = self.count + term_bit;
        let f: MyU128 = self.y.and(self.y.add_one().not());
        self.x.xor_assign(f);
        self.y = self.y.add_one().or(f.and(self.x.shift_right(1)));
        let half: u64 = self.idx / 2;
        let diff: u64 = if self.count >= half {
            self.count - half
        } else {
            half - self.count
        };
        proof {
            lemma_mul_upper_bound(
                diff as int,
                0xffff_ffff_ffff_ffff,
                self.dev_den as int,
                0xffff_ffff_ffff_ffff,
            );
            lemma_mul_upper_bound(
                self.dev_num as int,
                0xffff_ffff_ffff_ffff,
                self.idx as int,
                0xffff_ffff_ffff_ffff,
            );
        }
        if (diff as u128) * (self.dev_den as u128) > (self.dev_num as u128) * (self.idx as u128) {
            self.dev_num = diff;
            self.dev_den = self.idx;
        }
    }

    /// Advances the sequence by `steps` terms, one at a time.
    pub fn step(&mut self, steps: u64)
        requires
            old(self).wf(),
            old(self).idx + steps <= u64::MAX,
        ensures
            final(self)@ == k_step_n(old(self)@, steps as nat),
            final(self).wf(),
    {
        let mut i: u64 = 0;
        while i < steps
            invariant
                i <= steps,
                self.wf(),
                self@ == k_step_n(old(self)@, i as nat),
                self.idx == old(self).idx + i,
                old(self).idx + steps <= u64::MAX,
            decreases steps - i,
        {
            proof {
                lemma_k_step_n_idx(old(self)@, i as nat);
            }
            self.next();
            i = i + 1;
        }
    }

    /// Advances the sequence to the given index. A target behind the
    /// current index would be a caller bug, and the precondition rules it
    /// out.
    pub fn goto(&mut self, index: u64)
        requires
            old(self).wf(),
            old(self).idx <= index,
        ensures
            final(self)@ == k_step_n(old(self)@, (index - old(self).idx) as nat),
            final(self).wf(),
            final(self).idx == index,
    {
        let steps: u64 = index - self.idx;
        proof {
            lemma_k_step_n_idx(old(self)@, steps as nat);
        }
        self.step(steps);
    }

    /// Clears the deviation extremum, so that it starts tracking the
    /// interval after this call afresh.
    pub fn reset_deviation(&mut self)
        requires
            old(self).wf(),
        ensures
            final(self)@ == k_reset_dev(old(self)@),
            final(self).wf(),
    {
        self.dev_num = 0;
        self.dev_den = 1;
    }
}

} // verus!
