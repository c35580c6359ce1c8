use vstd::prelude::*;

use crate::field::{
    f_add, f_mul, f_square, f_sub, is_felt, lemma_mul_zero, lemma_sub_zero_iff_eq, madd, mmul,
    msquare, msub, P,
};
use crate::FIB_LEN;

verus! {

/// The explicit evaluation context threaded through a component's `evaluate`
/// call: it hands out one row's trace values in column order and collects the
/// constraint values that must vanish for the row to be accepted.
pub struct ConstraintAccumulator {
    /// One row of the trace, one value per column, in column order.
    pub masks: Vec<u32>,
    /// Index of the next unread mask.
    pub next: usize,
    /// The constraint values recorded so far.
    pub constraints: Vec<u32>,
}

impl ConstraintAccumulator {
    /// Well-formedness: no mask has been over-read and every mask is a
    /// canonical field element.
    pub open spec fn wf(&self) -> bool {
        &&& self.next <= self.masks.len()
        &&& forall|i: int| 0 <= i < self.masks.len() ==> is_felt(self.masks[i] as nat)
    }

    pub fn new(masks: Vec<u32>) -> (r: ConstraintAccumulator)
        requires
            forall|i: int| 0 <= i < masks.len() ==> is_felt(masks[i] as nat),
        ensures
            r.wf(),
            r.masks == masks,
            r.next == 0,
            r.constraints@ == Seq::<u32>::empty(),
    {
        ConstraintAccumulator { masks, next: 0, constraints: Vec::new() }
    }

    /// Yields the value of the next unread trace column at the current row.
    /// Reading more masks than there are columns is a protocol violation and
    /// is excluded by precondition.
    pub fn next_trace_mask(&mut self) -> (r: u32)
        requires
            old(self).wf(),
            old(self).next < old(self).masks.len(),
        ensures
            final(self).wf(),
            final(self).masks == old(self).masks,
            final(self).constraints == old(self).constraints,
            final(self).next == old(self).next + 1,
            r == old(self).masks[old(self).next as int],
            is_felt(r as nat),
    {
        let r = self.masks[self.next];
        self.next = self.next + 1;
        r
    }

    /// Records a polynomial constraint value that must equal zero for the
    /// row to be accepted.
    pub fn add_constraint(&mut self, value: u32)
        requires
            old(self).wf(),
        ensures
            final(self).wf(),
            final(self).masks == old(self).masks,
            final(self).next == old(self).next,
            final(self).constraints@ == old(self).constraints@.push(value),
    {
        self.constraints.push(value);
    }
}

/// True when every recorded constraint value vanishes.
pub open spec fn all_constraints_vanish(cs: Seq<u32>) -> bool {
    forall|i: int| 0 <= i < cs.len() ==> cs[i] == 0
}

/// The recurrence constraint for consecutive columns `i, i+1, i+2` of a mask
/// row: `m[i+2] - (m[i]^2 + m[i+1]^2)` in the field.
pub open spec fn fib_constraint(m: Seq<u32>, i: int) -> nat
    recommends
        m.len() == FIB_LEN,
        0 <= i < FIB_LEN - 2,
{
    f_sub(m[i + 2] as nat, f_add(f_square(m[i] as nat), f_square(m[i + 1] as nat)))
}

/// A mask row follows the squared-Fibonacci recurrence and ends in the claim.
pub open spec fn fib_row_ok(m: Seq<u32>, claim: nat) -> bool
    recommends
        m.len() == FIB_LEN,
{
    &&& forall|i: int|
        2 <= i < FIB_LEN ==> #[trigger] m[i] as nat == f_add(
            f_square(m[i - 2] as nat),
            f_square(m[i - 1] as nat),
        )
    &&& m[FIB_LEN - 1] as nat == claim
}

/// The recurrence component: proves knowledge of a squared-Fibonacci sequence
/// whose last element equals the public claim.
#[derive(Clone, Copy, Debug)]
pub struct FibonacciEval {
    pub log_n_rows: u32,
    pub claim_last: u32,
}

impl FibonacciEval {
    pub open spec fn wf(&self) -> bool {
        is_felt(self.claim_last as nat)
    }

    pub fn log_size(&self) -> (r: u32)
        ensures
            r == self.log_n_rows,
    {
        self.log_n_rows
    }

    /// Bound on the log-degree of any emitted constraint: the squaring is
    /// degree two, one above the trace degree.
    pub fn max_constraint_log_degree_bound(&self) -> (r: u32)
        requires
            self.log_n_rows < 0xffff_ffff,
        ensures
            r == self.log_n_rows + 1,
    {
        self.log_n_rows + 1
    }

    /// Evaluates the component's constraints on one row of masks: fourteen
    /// recurrence constraints followed by the boundary constraint binding the
    /// last column to the public claim.
    pub fn evaluate(&self, eval: ConstraintAccumulator) -> (r: ConstraintAccumulator)
        requires
            self.wf(),
            eval.wf(),
            eval.next == 0,
            eval.constraints@ == Seq::<u32>::empty(),
            eval.masks.len() == FIB_LEN,
        ensures
            r.wf(),
            r.masks@ == eval.masks@,
            r.next == eval.masks.len(),
            r.constraints@.len() == FIB_LEN - 1,
            forall|i: int|
                0 <= i < FIB_LEN - 2 ==> #[trigger] r.constraints@[i] as nat == fib_constraint(
                    eval.masks@,
                    i,
                ),
            r.constraints@[FIB_LEN - 2] as nat == f_sub(
                eval.masks@[FIB_LEN - 1] as nat,
                self.claim_last as nat,
            ),
    {
        let mut eval = eval;
        let mut a = eval.next_trace_mask();
        let mut b = eval.next_trace_mask();
        let ghost m = eval.masks@;
        let mut i: usize = 2;
        while i < FIB_LEN
        invariant
            self.wf(),
            eval.wf(),
            eval.masks@ == m,
            m.len() == FIB_LEN,
            2 <= i <= FIB_LEN,
            eval.next == i,
            a == m[i - 2],
            b == m[i - 1],
            eval.constraints@.len() == i - 2,
            forall|j: int|
                0 <= j < i - 2 ==> #[trigger] eval.constraints@[j] as nat == fib_constraint(m, j),
        decreases FIB_LEN - i,
        {
            let c = eval.next_trace_mask();
            eval.add_constraint(msub(c, madd(msquare(a), msquare(b))));
            a = b;
            b = c;
            i = i + 1;
        }
        eval.add_constraint(msub(b, self.claim_last));
        eval
    }
}

/// The constraints of the recurrence component vanish on a mask row exactly
/// when the row follows the recurrence and its last column equals the claim.
pub proof fn lemma_fib_vanishing_iff(m: Seq<u32>, claim: nat)
    requires
        m.len() == FIB_LEN,
        forall|i: int| 0 <= i < m.len() ==> is_felt(m[i] as nat),
        is_felt(claim),
    ensures
        ((forall|i: int| 0 <= i < FIB_LEN - 2 ==> fib_constraint(m, i) == 0) && f_sub(
            m[FIB_LEN - 1] as nat,
            claim,
        ) == 0) <==> fib_row_ok(m, claim),
{
    lemma_sub_zero_iff_eq(m[FIB_LEN - 1] as nat, claim);
    if (forall|i: int| 0 <= i < FIB_LEN - 2 ==> fib_constraint(m, i) == 0) && f_sub(
        m[FIB_LEN - 1] as nat,
        claim,
    ) == 0 {
        assert forall|j: int| 2 <= j < FIB_LEN implies #[trigger] m[j] as nat == f_add(
            f_square(m[j - 2] as nat),
            f_square(m[j - 1] as nat),
        ) by {
            assert(fib_constraint(m, j - 2) == 0);
            lemma_sub_zero_iff_eq(
                m[j] as nat,
                f_add(f_square(m[j - 2] as nat), f_square(m[j - 1] as nat)),
            );
        }
        assert(fib_row_ok(m, claim));
    }
    if fib_row_ok(m, claim) {
        assert forall|i: int| 0 <= i < FIB_LEN - 2 implies fib_constraint(m, i) == 0 by {
            assert(m[i + 2] as nat == f_add(f_square(m[i] as nat), f_square(m[i + 1] as nat)));
            lemma_sub_zero_iff_eq(
                m[i + 2] as nat,
                f_add(f_square(m[i] as nat), f_square(m[i + 1] as nat)),
            );
        }
    }
}

/// The verdict of a recurrence evaluation: the constraint values an
/// accumulator collected for a mask row all vanish exactly when the row
/// follows the recurrence and ends in the claim.
pub proof fn lemma_fib_verdict(cs: Seq<u32>, m: Seq<u32>, claim: nat)
    requires
        m.len() == FIB_LEN,
        forall|i: int| 0 <= i < m.len() ==> is_felt(m[i] as nat),
        is_felt(claim),
        cs.len() == FIB_LEN - 1,
        forall|i: int| 0 <= i < FIB_LEN - 2 ==> #[trigger] cs[i] as nat == fib_constraint(m, i),
        cs[FIB_LEN - 2] as nat == f_sub(m[FIB_LEN - 1] as nat, claim),
    ensures
        all_constraints_vanish(cs) <==> fib_row_ok(m, claim),
{
    lemma_fib_vanishing_iff(m, claim);
    if all_constraints_vanish(cs) {
        assert forall|i: int| 0 <= i < FIB_LEN - 2 implies fib_constraint(m, i) == 0 by {
            assert(cs[i] == 0);
        }
    }
    if fib_row_ok(m, claim) {
        assert forall|i: int| 0 <= i < cs.len() implies cs[i] == 0 by {
            if i < FIB_LEN - 2 {
                assert(cs[i] as nat == fib_constraint(m, i));
            }
        }
    }
}

/// Two claims that both make the same mask row acceptable are equal: the
/// boundary constraint binds the artifact's public claim to the trace.
pub proof fn lemma_claim_binding(m: Seq<u32>, claim_a: nat, claim_b: nat)
    requires
        m.len() == FIB_LEN,
        fib_row_ok(m, claim_a),
        fib_row_ok(m, claim_b),
    ensures
        claim_a == claim_b,
{
}

/// A tampered claim is unsatisfiable: a mask row that is acceptable under
/// one claim is rejected under every other, so altering the public claim of
/// an otherwise-valid artifact must make verification fail.
pub proof fn lemma_tampered_claim_unsatisfiable(m: Seq<u32>, claim: nat, tampered: nat)
    requires
        m.len() == FIB_LEN,
        fib_row_ok(m, claim),
        tampered != claim,
    ensures
        !fib_row_ok(m, tampered),
{
}

/// The trace generator's sequence satisfies the recurrence component with the
/// sequence's own last element as the claim: proving a freshly generated
/// trace never fails for want of a satisfying row.
pub proof fn lemma_generated_row_ok(m: Seq<u32>, a0: nat, b0: nat)
    requires
        is_felt(a0),
        is_felt(b0),
        m.len() == FIB_LEN,
        forall|i: int| 0 <= i < FIB_LEN ==> m[i] as nat == crate::trace::fib_seq(a0, b0, i as nat),
    ensures
        fib_row_ok(m, crate::trace::fib_seq(a0, b0, (FIB_LEN - 1) as nat)),
{
    assert forall|i: int| 2 <= i < FIB_LEN implies #[trigger] m[i] as nat == f_add(
        f_square(m[i - 2] as nat),
        f_square(m[i - 1] as nat),
    ) by {
        assert(crate::trace::fib_seq(a0, b0, i as nat) == f_add(
            f_square(crate::trace::fib_seq(a0, b0, (i - 2) as nat)),
            f_square(crate::trace::fib_seq(a0, b0, (i - 1) as nat)),
        ));
    }
}

/// The range-check product over `age`: the field product of `(age - k)` for
/// `k` from 18 up to (excluding) `k_end`.
pub open spec fn range_product(age: nat, k_end: int) -> nat
    recommends
        is_felt(age),
    decreases k_end,
{
    if k_end <= 18 {
        1
    } else {
        f_mul(range_product(age, k_end - 1), f_sub(age, (k_end - 1) as nat))
    }
}

/// The full range-membership constraint: the product over all of 18..=150.
pub open spec fn range_constraint(age: nat) -> nat
    recommends
        is_felt(age),
{
    range_product(age, 151)
}

pub proof fn lemma_range_product_felt(age: nat, k_end: int)
    requires
        is_felt(age),
    ensures
        is_felt(range_product(age, k_end)),
    decreases k_end,
{
    if k_end > 18 {
        lemma_range_product_felt(age, k_end - 1);
        vstd::arithmetic::div_mod::lemma_mod_bound(
            (range_product(age, k_end - 1) * f_sub(age, (k_end - 1) as nat)) as int,
            P as int,
        );
    }
}

/// The range-check component: proves the (hidden) trace value lies in
/// `[18, 150]` without revealing it.
#[derive(Clone, Copy, Debug)]
pub struct AgeCheckEval {
    pub log_n_rows: u32,
}

impl AgeCheckEval {
    pub fn log_size(&self) -> (r: u32)
        ensures
            r == self.log_n_rows,
    {
        self.log_n_rows
    }

    /// Bound on the log-degree of the emitted constraint: the product of 133
    /// linear factors needs eight extra doublings above the trace degree.
    pub fn max_constraint_log_degree_bound(&self) -> (r: u32)
        requires
            self.log_n_rows < 0xffff_fff7,
        ensures
            r == self.log_n_rows + 8,
    {
        self.log_n_rows + 8
    }

    /// Evaluates the component's single constraint on one row: the product of
    /// differences that vanishes exactly on ages 18..=150.
    pub fn evaluate(&self, eval: ConstraintAccumulator) -> (r: ConstraintAccumulator)
        requires
            eval.wf(),
            eval.next == 0,
            eval.constraints@ == Seq::<u32>::empty(),
            eval.masks.len() == 1,
        ensures
            r.wf(),
            r.masks@ == eval.masks@,
            r.next == eval.masks.len(),
            r.constraints@.len() == 1,
            r.constraints@[0] as nat == range_constraint(eval.masks@[0] as nat),
    {
        let mut eval = eval;
        let age = eval.next_trace_mask();
        proof {
            assert(range_product(age as nat, 18) == 1);
            lemma_one_times(f_sub(age as nat, 18));
            assert(range_product(age as nat, 19) == f_sub(age as nat, 18));
        }
        let mut product = msub(age, 18);
        let mut k: u32 = 19;
        while k <= 150
            invariant
                is_felt(age as nat),
                is_felt(product as nat),
                19 <= k <= 151,
                product as nat == range_product(age as nat, k as int),
            decreases 151 - k,
        {
            product = mmul(product, msub(age, k));
            k = k + 1;
        }
        eval.add_constraint(product);
        eval
    }
}

/// Multiplying the field unit by a canonical element returns it unchanged.
proof fn lemma_one_times(a: nat)
    requires
        is_felt(a),
    ensures
        f_mul(1, a) == a,
{
    assert(1 * a == a);
    vstd::arithmetic::div_mod::lemma_small_mod(a, P as nat);
}

/// For an age inside `[18, 150]` the range constraint vanishes: one factor of
/// the product is zero, and zero annihilates the rest.
pub proof fn lemma_range_constraint_in_range(age: nat)
    requires
        18 <= age <= 150,
    ensures
        range_constraint(age) == 0,
{
    lemma_range_product_zero_from(age, age + 1 as int);
    lemma_range_product_zero_upward(age, age + 1 as int, 151);
}

proof fn lemma_range_product_zero_from(age: nat, k_end: int)
    requires
        18 <= age <= 150,
        k_end == age + 1,
    ensures
        range_product(age, k_end) == 0,
{
    lemma_range_product_felt(age, k_end - 1);
    assert(f_sub(age, age) == 0);
    lemma_mul_zero(range_product(age, k_end - 1));
}

proof fn lemma_range_product_zero_upward(age: nat, k_zero: int, k_end: int)
    requires
        18 <= age <= 150,
        18 < k_zero <= k_end <= 151,
        range_product(age, k_zero) == 0,
    ensures
        range_product(age, k_end) == 0,
    decreases k_end - k_zero,
{
    if k_end > k_zero {
        lemma_range_product_zero_upward(age, k_zero, k_end - 1);
        lemma_range_product_felt(age, k_end - 1);
        assert(is_felt(f_sub(age, (k_end - 1) as nat)));
        lemma_mul_zero(f_sub(age, (k_end - 1) as nat));
    }
}

/// For an age inside `[18, 150]`, the single constraint value collected from
/// a generated range-check trace row vanishes: proving a valid age never
/// fails for want of a satisfying row, and the age itself is never revealed.
pub proof fn lemma_age_trace_satisfiable(age: u32, cs: Seq<u32>)
    requires
        18 <= age <= 150,
        cs.len() == 1,
        cs[0] as nat == range_constraint(crate::field::f_reduce(age as nat)),
    ensures
        all_constraints_vanish(cs),
{
    vstd::arithmetic::div_mod::lemma_small_mod(age as nat, P as nat);
    lemma_range_constraint_in_range(age as nat);
}

} // verus!
