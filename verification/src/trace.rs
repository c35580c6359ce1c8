use vstd::prelude::*;

use crate::field::{f_add, f_reduce, f_square, is_felt, madd, mreduce, msquare};
use crate::FIB_LEN;

verus! {

/// The squared-Fibonacci sequence: each element is the sum of the squares of
/// the two before it, all in the base field.
pub open spec fn fib_seq(a0: nat, b0: nat, i: nat) -> nat
    recommends
        is_felt(a0),
        is_felt(b0),
    decreases i,
{
    if i == 0 {
        a0
    } else if i == 1 {
        b0
    } else {
        f_add(f_square(fib_seq(a0, b0, (i - 2) as nat)), f_square(fib_seq(a0, b0, (i - 1) as nat)))
    }
}

/// Every element of the sequence is a canonical field element.
pub proof fn lemma_fib_seq_felt(a0: nat, b0: nat, i: nat)
    requires
        is_felt(a0),
        is_felt(b0),
    ensures
        is_felt(fib_seq(a0, b0, i)),
    decreases i,
{
    if i >= 2 {
        lemma_fib_seq_felt(a0, b0, (i - 2) as nat);
        lemma_fib_seq_felt(a0, b0, (i - 1) as nat);
    }
}

/// Computes the first `FIB_LEN` elements of the squared-Fibonacci sequence.
pub fn fib_sequence(start_a: u32, start_b: u32) -> (r: Vec<u32>)
    requires
        is_felt(start_a as nat),
        is_felt(start_b as nat),
    ensures
        r.len() == FIB_LEN,
        forall|i: int|
            0 <= i < FIB_LEN ==> r[i] as nat == fib_seq(start_a as nat, start_b as nat, i as nat),
{
    let mut seq: Vec<u32> = Vec::new();
    let mut a = start_a;
    let mut b = start_b;
    seq.push(a);
    seq.push(b);
    let mut i: usize = 2;
    while i < FIB_LEN
        invariant
            2 <= i <= FIB_LEN,
            seq.len() == i,
            is_felt(a as nat),
            is_felt(b as nat),
            a as nat == fib_seq(start_a as nat, start_b as nat, (i - 2) as nat),
            b as nat == fib_seq(start_a as nat, start_b as nat, (i - 1) as nat),
            forall|j: int|
                0 <= j < i ==> seq[j] as nat == fib_seq(start_a as nat, start_b as nat, j as nat),
        decreases FIB_LEN - i,
    {
        let c = madd(msquare(a), msquare(b));
        seq.push(c);
        a = b;
        b = c;
        i = i + 1;
    }
    seq
}

/// One trace column: the given value broadcast across `2^log_size` rows.
fn broadcast_column(log_size: u32, value: u32) -> (r: Vec<u32>)
    requires
        log_size <= 29,
    ensures
        r.len() == 1usize << log_size,
        forall|row: int| 0 <= row < r.len() ==> r[row] == value,
{
    let n_rows: usize = 1usize << log_size;
    let mut col: Vec<u32> = Vec::new();
    let mut row: usize = 0;
    while row < n_rows
        invariant
            row <= n_rows,
            col.len() == row,
            forall|k: int| 0 <= k < row ==> col[k] == value,
        decreases n_rows - row,
    {
        col.push(value);
        row = row + 1;
    }
    col
}

/// Builds the recurrence trace: `FIB_LEN` columns of `2^log_size` rows, every
/// row holding the identical full sequence, plus the final sequence value,
/// which becomes the public claim.
pub fn generate_trace(log_size: u32, start_a: u32, start_b: u32) -> (r: (Vec<Vec<u32>>, u32))
    requires
        log_size <= 29,
        is_felt(start_a as nat),
        is_felt(start_b as nat),
    ensures
        r.0.len() == FIB_LEN,
        forall|c: int| 0 <= c < FIB_LEN ==> #[trigger] r.0[c].len() == 1usize << log_size,
        forall|c: int, row: int|
            0 <= c < FIB_LEN && 0 <= row < 1usize << log_size ==> #[trigger] r.0[c][row] as nat
                == fib_seq(start_a as nat, start_b as nat, c as nat),
        r.1 as nat == fib_seq(start_a as nat, start_b as nat, (FIB_LEN - 1) as nat),
{
    let seq = fib_sequence(start_a, start_b);
    let last_val = seq[FIB_LEN - 1];
    let mut trace: Vec<Vec<u32>> = Vec::new();
    let mut c: usize = 0;
    while c < FIB_LEN
        invariant
            c <= FIB_LEN,
            trace.len() == c,
            log_size <= 29,
            seq.len() == FIB_LEN,
            is_felt(start_a as nat),
            is_felt(start_b as nat),
            forall|j: int|
                0 <= j < FIB_LEN ==> seq[j] as nat == fib_seq(
                    start_a as nat,
                    start_b as nat,
                    j as nat,
                ),
            forall|j: int| 0 <= j < c ==> #[trigger] trace[j].len() == 1usize << log_size,
            forall|j: int, row: int|
                0 <= j < c && 0 <= row < 1usize << log_size ==> #[trigger] trace[j][row] as nat
                    == fib_seq(start_a as nat, start_b as nat, j as nat),
        decreases FIB_LEN - c,
    {
        let col = broadcast_column(log_size, seq[c]);
        trace.push(col);
        c = c + 1;
    }
    (trace, last_val)
}

/// Builds the range-check trace: one column holding the claimed age (reduced
/// into the field) in every row.
pub fn generate_age_trace(log_size: u32, age_claim: u32) -> (r: Vec<Vec<u32>>)
    requires
        log_size <= 29,
    ensures
        r.len() == 1,
        r[0].len() == 1usize << log_size,
        forall|row: int|
            0 <= row < 1usize << log_size ==> #[trigger] r[0][row] as nat == f_reduce(
                age_claim as nat,
            ),
{
    let value = mreduce(age_claim);
    let col = broadcast_column(log_size, value);
    let mut trace: Vec<Vec<u32>> = Vec::new();
    trace.push(col);
    trace
}

/// Determinism: any two trace/claim pairs that meet the trace generator's
/// contract for the same seeds and size are equal, column for column and row
/// for row; proving twice from identical inputs cannot diverge.
pub proof fn lemma_trace_determinism(
    t1: Seq<Seq<u32>>,
    claim1: u32,
    t2: Seq<Seq<u32>>,
    claim2: u32,
    log_size: u32,
    a0: nat,
    b0: nat,
)
    requires
        is_felt(a0),
        is_felt(b0),
        t1.len() == FIB_LEN,
        t2.len() == FIB_LEN,
        forall|c: int| 0 <= c < FIB_LEN ==> #[trigger] t1[c].len() == 1usize << log_size,
        forall|c: int| 0 <= c < FIB_LEN ==> #[trigger] t2[c].len() == 1usize << log_size,
        forall|c: int, row: int|
            0 <= c < FIB_LEN && 0 <= row < 1usize << log_size ==> #[trigger] t1[c][row] as nat
                == fib_seq(a0, b0, c as nat),
        forall|c: int, row: int|
            0 <= c < FIB_LEN && 0 <= row < 1usize << log_size ==> #[trigger] t2[c][row] as nat
                == fib_seq(a0, b0, c as nat),
        claim1 as nat == fib_seq(a0, b0, (FIB_LEN - 1) as nat),
        claim2 as nat == fib_seq(a0, b0, (FIB_LEN - 1) as nat),
    ensures
        t1 == t2,
        claim1 == claim2,
{
    assert forall|c: int| 0 <= c < FIB_LEN implies t1[c] == t2[c] by {
        assert(t1[c] =~= t2[c]);
    }
    assert(t1 =~= t2);
}

} // verus!
