//! The checkpoint report: the generator is advanced to each checkpoint
//! 10, 100, 1000, ... (each clamped to the target index), a row of
//! statistics is recorded there, and the deviation extremum is cleared
//! between checkpoints, until the index reaches the target.

use vstd::prelude::*;
use crate::kolakoski::{
    KState, Kolakoski, k_init, k_reset_dev, k_step_n, lemma_k_step_n_idx,
};
use crate::wide::wide_bit_stat;

verus! {

/// One reported checkpoint row: the index reached, the running count of
/// ones, the deviation extremum since the previous checkpoint as the
/// exact fraction `dev_num / dev_den`, and the bit statistics of the two
/// state words.
pub struct Row {
    pub idx: u64,
    pub count: u64,
    pub dev_num: u64,
    pub dev_den: u64,
    pub x_bits: usize,
    pub y_bits: usize,
}

/// The mathematical content of a checkpoint row.
pub ghost struct RowV {
    pub idx: nat,
    pub count: nat,
    pub dev_num: nat,
    pub dev_den: nat,
    pub x_bits: nat,
    pub y_bits: nat,
}

impl View for Row {
    type V = RowV;

    open spec fn view(&self) -> RowV {
        RowV {
            idx: self.idx as nat,
            count: self.count as nat,
            dev_num: self.dev_num as nat,
            dev_den: self.dev_den as nat,
            x_bits: self.x_bits as nat,
            y_bits: self.y_bits as nat,
        }
    }
}

/// The row that a generator in state `s` reports.
pub open spec fn row_of(s: KState) -> RowV {
    RowV {
        idx: s.idx,
        count: s.count,
        dev_num: s.dev_num,
        dev_den: s.dev_den,
        x_bits: wide_bit_stat(s.x),
        y_bits: wide_bit_stat(s.y),
    }
}

/// The rows that a run still produces from state `s`, with `np` the next
/// unclamped checkpoint: while the index is short of the target, the
/// generator advances to the checkpoint clamped to the target, reports a
/// row there, clears its deviation extremum, and moves to a tenfold
/// checkpoint.
pub open spec fn spec_rows(s: KState, np: nat, target: nat) -> Seq<RowV>
    decreases target - s.idx,
    via spec_rows_decreases
{
    if s.idx < target {
        let cp = if np < target {
            np
        } else {
            target
        };
        if s.idx < cp {
            let s2 = k_step_n(s, (cp - s.idx) as nat);
            seq![row_of(s2)] + spec_rows(k_reset_dev(s2), cp * 10, target)
        } else {
            Seq::empty()
        }
    } else {
        Seq::empty()
    }
}

#[via_fn]
proof fn spec_rows_decreases(s: KState, np: nat, target: nat) {
    if s.idx < target {
        let cp = if np < target {
            np
        } else {
            target
        };
        if s.idx < cp {
            lemma_k_step_n_idx(s, (cp - s.idx) as nat);
        }
    }
}

/// The mathematical rows behind a vector of rows.
pub open spec fn rows_view(rs: Seq<Row>) -> Seq<RowV> {
    rs.map_values(|r: Row| r@)
}

proof fn lemma_rows_view_push(rs: Seq<Row>, r: Row)
    ensures
        rows_view(rs.push(r)) == rows_view(rs).push(r@),
{
    assert(rows_view(rs.push(r)) =~= rows_view(rs).push(r@));
}

/// Runs the whole report for the given target index and returns the rows
/// in checkpoint order. The bound on the target keeps the tenfold
/// checkpoint within the 64-bit range, as every supported target does.
pub fn run(target: u64) -> (rows: Vec<Row>)
    requires
        target <= u64::MAX / 10,
    ensures
        rows_view(rows@) == spec_rows(k_init(), 10, target as nat),
{
    let mut gen = Kolakoski::new();
    let mut rows: Vec<Row> = Vec::new();
    let mut next_print: u64 = 10;
    while gen.idx < target
        invariant
            gen.wf(),
            target <= u64::MAX / 10,
            gen.idx < next_print,
            rows_view(rows@) + spec_rows(gen@, next_print as nat, target as nat)
                == spec_rows(k_init(), 10, target as nat),
        decreases target - gen.idx,
    {
        let ghost pre = gen@;
        let ghost rows0 = rows@;
        let cp: u64 = if next_print < target {
            next_print
        } else {
            target
        };
        gen.goto(cp);
        let row = Row {
            idx: gen.idx,
            count: gen.count,
            dev_num: gen.dev_num,
            dev_den: gen.dev_den,
            x_bits: gen.x.bit_count(),
            y_bits: gen.y.bit_count(),
        };
        rows.push(row);
        gen.reset_deviation();
        proof {
            let ghost s2 = k_step_n(pre, (cp - pre.idx) as nat);
            lemma_rows_view_push(rows0, row);
            assert(row@ == row_of(s2));
            assert(spec_rows(pre, next_print as nat, target as nat)
                == seq![row_of(s2)] + spec_rows(gen@, (cp * 10) as nat, target as nat));
            assert(rows_view(rows0).push(row@)
                    + spec_rows(gen@, (cp * 10) as nat, target as nat)
                =~= rows_view(rows0)
                    + (seq![row_of(s2)] + spec_rows(gen@, (cp * 10) as nat, target as nat)));
        }
        next_print = cp * 10;
    }
    proof {
        assert(rows_view(rows@) + spec_rows(gen@, next_print as nat, target as nat)
            =~= rows_view(rows@));
    }
    rows
}

} // verus!
