use vstd::prelude::*;

use crate::artifact::{le4_val, lemma_encode_decode_round_trip, spec_encode, ProofResult};
use crate::component::{fib_row_ok, lemma_generated_row_ok, AgeCheckEval, FibonacciEval};
use crate::error::{ErrorKind, PipelineError};
use crate::field::{f_reduce, is_felt, mreduce, P};
use crate::trace::{fib_seq, generate_trace, lemma_fib_seq_felt};
use crate::{FIB_LEN, LOG_N_ROWS};

verus! {

/// The year against which a birth year is judged.
pub const CURRENT_YEAR: u32 = 2025;

/// Turns a birth year into an age, refusing a year in the future before any
/// trace or commitment work begins: a negative age is not representable in
/// the unsigned field encoding and must not silently wrap.
pub fn age_from_birth_year(birth_year: u32, current_year: u32) -> (r: Result<u32, PipelineError>)
    ensures
        r is Ok <==> birth_year <= current_year,
        r matches Ok(age) ==> age == current_year - birth_year,
        r matches Err(e) ==> e.kind == ErrorKind::InvalidInput && e.message@ == "Invalid birth year (future)"@,
{
    if birth_year > current_year {
        Err(PipelineError::new(ErrorKind::InvalidInput, "Invalid birth year (future)"))
    } else {
        Ok(current_year - birth_year)
    }
}

/// Builds the recurrence component's trace and public claim from a seed: the
/// first seed element is the field unit, the second the given value reduced
/// into the field.
pub fn prove_fib_prepare(seed_val: u32) -> (r: (Vec<Vec<u32>>, u32))
    ensures
        r.0.len() == FIB_LEN,
        forall|c: int| 0 <= c < FIB_LEN ==> #[trigger] r.0[c].len() == 1usize << LOG_N_ROWS,
        forall|c: int, row: int|
            0 <= c < FIB_LEN && 0 <= row < 1usize << LOG_N_ROWS ==> #[trigger] r.0[c][row] as nat
                == fib_seq(1, f_reduce(seed_val as nat), c as nat),
        r.1 as nat == fib_seq(1, f_reduce(seed_val as nat), (FIB_LEN - 1) as nat),
{
    let b0 = mreduce(seed_val);
    generate_trace(LOG_N_ROWS, 1, b0)
}

/// Bundles the engine's serialized proof with the public claim and the
/// timing diagnostic into the transportable wire format.
pub fn package_artifact(proof_bytes: Vec<u8>, claim: u32, time_ms: u64) -> (r: Vec<u8>)
    requires
        proof_bytes.len() < 0x1_0000_0000,
    ensures
        r@ == spec_encode(proof_bytes@, claim, time_ms),
{
    let artifact = ProofResult { proof_bytes, claim_last_val: claim, time_ms };
    artifact.encode()
}

/// Rebuilds the recurrence component from an artifact's public claim, exactly
/// as the prover constructed it: the claim is untrusted input, reduced into
/// the field, never derived from the proof.
pub fn rebuild_fib_component(claim_last_val: u32) -> (r: FibonacciEval)
    ensures
        r.wf(),
        r.log_n_rows == LOG_N_ROWS,
        r.claim_last as nat == f_reduce(claim_last_val as nat),
{
    FibonacciEval { log_n_rows: LOG_N_ROWS, claim_last: mreduce(claim_last_val) }
}

/// The per-column log degree bounds of the recurrence component's one
/// committed trace tree.
pub fn fib_trace_log_degree_bounds(eval: &FibonacciEval) -> (r: Vec<u32>)
    ensures
        r.len() == FIB_LEN,
        forall|i: int| 0 <= i < FIB_LEN ==> r[i] == eval.log_n_rows,
{
    let mut sizes: Vec<u32> = Vec::new();
    let mut i: usize = 0;
    while i < FIB_LEN
        invariant
            i <= FIB_LEN,
            sizes.len() == i,
            forall|j: int| 0 <= j < i ==> sizes[j] == eval.log_n_rows,
        decreases FIB_LEN - i,
    {
        sizes.push(eval.log_n_rows);
        i = i + 1;
    }
    sizes
}

/// The per-column log degree bounds of the range-check component's committed
/// trace tree.
pub fn age_trace_log_degree_bounds(eval: &AgeCheckEval) -> (r: Vec<u32>)
    ensures
        r.len() == 1,
        r[0] == eval.log_n_rows,
{
    let mut sizes: Vec<u32> = Vec::new();
    sizes.push(eval.log_n_rows);
    sizes
}

/// The ordered commitment schedule of a proof run: one entry per committed
/// tree, each entry the column log sizes of that tree.
pub open spec fn spec_fib_commit_schedule(log_n_rows: u32) -> Seq<Seq<u32>> {
    seq![Seq::<u32>::new(FIB_LEN as nat, |i: int| log_n_rows)]
}

/// The range-check run commits an empty preamble tree before the trace tree.
pub open spec fn spec_age_commit_schedule(log_n_rows: u32) -> Seq<Seq<u32>> {
    seq![Seq::<u32>::empty(), seq![log_n_rows]]
}

/// The schedule the prover commits trees in, for the recurrence run.
pub fn fib_prover_schedule(eval: &FibonacciEval) -> (r: Vec<Vec<u32>>)
    ensures
        r@.map_values(|v: Vec<u32>| v@) == spec_fib_commit_schedule(eval.log_n_rows),
{
    let mut schedule: Vec<Vec<u32>> = Vec::new();
    schedule.push(fib_trace_log_degree_bounds(eval));
    proof {
        assert(schedule@.map_values(|v: Vec<u32>| v@)[0] =~= spec_fib_commit_schedule(
            eval.log_n_rows,
        )[0]);
        assert(schedule@.map_values(|v: Vec<u32>| v@) =~= spec_fib_commit_schedule(
            eval.log_n_rows,
        ));
    }
    schedule
}

/// The schedule the verifier replays commitment digests in, for the
/// recurrence run: tree by tree, in the prover's order.
pub fn fib_verifier_schedule(eval: &FibonacciEval) -> (r: Vec<Vec<u32>>)
    ensures
        r@.map_values(|v: Vec<u32>| v@) == spec_fib_commit_schedule(eval.log_n_rows),
{
    fib_prover_schedule(eval)
}

/// The schedule the prover commits trees in, for the range-check run.
pub fn age_prover_schedule(eval: &AgeCheckEval) -> (r: Vec<Vec<u32>>)
    ensures
        r@.map_values(|v: Vec<u32>| v@) == spec_age_commit_schedule(eval.log_n_rows),
{
    let mut schedule: Vec<Vec<u32>> = Vec::new();
    schedule.push(Vec::new());
    schedule.push(age_trace_log_degree_bounds(eval));
    proof {
        assert(schedule@.map_values(|v: Vec<u32>| v@)[0] =~= spec_age_commit_schedule(
            eval.log_n_rows,
        )[0]);
        assert(schedule@.map_values(|v: Vec<u32>| v@)[1] =~= spec_age_commit_schedule(
            eval.log_n_rows,
        )[1]);
        assert(schedule@.map_values(|v: Vec<u32>| v@) =~= spec_age_commit_schedule(
            eval.log_n_rows,
        ));
    }
    schedule
}

/// The schedule the verifier replays commitment digests in, for the
/// range-check run.
pub fn age_verifier_schedule(eval: &AgeCheckEval) -> (r: Vec<Vec<u32>>)
    ensures
        r@.map_values(|v: Vec<u32>| v@) == spec_age_commit_schedule(eval.log_n_rows),
{
    age_prover_schedule(eval)
}

/// The process-wide precomputed-domain holder: initialized at most once,
/// read-only thereafter. Reading it before initialization is a programming
/// error and is excluded by precondition.
pub struct TwiddleCache {
    pub log_max: Option<u32>,
}

impl TwiddleCache {
    pub open spec fn initialized(&self) -> bool {
        self.log_max is Some
    }

    pub fn new() -> (r: TwiddleCache)
        ensures
            !r.initialized(),
    {
        TwiddleCache { log_max: None }
    }

    /// Records the maximum domain log size twiddles were precomputed for.
    /// Idempotent: a second initialization keeps the first value.
    pub fn init(&mut self, log_max: u32)
        ensures
            final(self).initialized(),
            final(self).log_max == if old(self).initialized() {
                old(self).log_max
            } else {
                Some(log_max)
            },
    {
        if self.log_max.is_none() {
            self.log_max = Some(log_max);
        }
    }

    /// The domain log size of the cached twiddles.
    pub fn required_log(&self) -> (r: u32)
        requires
            self.initialized(),
        ensures
            Some(r) == self.log_max,
    {
        self.log_max.unwrap()
    }

    /// The checked form of `required_log`, for callers at the outermost
    /// entry point: use before initialization is reported as a precondition
    /// violation rather than a silent recompute.
    pub fn try_required_log(&self) -> (r: Result<u32, PipelineError>)
        ensures
            r is Ok <==> self.initialized(),
            r matches Ok(log) ==> Some(log) == self.log_max,
            r matches Err(e) ==> e.kind == ErrorKind::PreconditionViolation,
    {
        match self.log_max {
            Some(log) => Ok(log),
            None => Err(
                PipelineError::new(
                    ErrorKind::PreconditionViolation,
                    "twiddle cache used before initialization",
                ),
            ),
        }
    }
}

/// The domain log size the recurrence run needs twiddles for: one above the
/// trace size, plus the blow-up.
pub fn fib_twiddle_log(log_n_rows: u32, log_blowup_factor: u32) -> (r: u32)
    requires
        log_n_rows + 1 + log_blowup_factor <= 0xffff_ffff,
    ensures
        r == log_n_rows + 1 + log_blowup_factor,
{
    log_n_rows + 1 + log_blowup_factor
}

/// The domain log size the range-check run needs twiddles for: nine above
/// the trace size (covering the degree-bound headroom of the product
/// constraint), plus the blow-up.
pub fn age_twiddle_log(log_n_rows: u32, log_blowup_factor: u32) -> (r: u32)
    requires
        log_n_rows + 9 + log_blowup_factor <= 0xffff_ffff,
    ensures
        r == log_n_rows + 9 + log_blowup_factor,
{
    log_n_rows + 9 + log_blowup_factor
}

/// Squares a word, reporting overflow as a structured failure rather than
/// an unrecoverable abort.
pub fn square_checked(x: u32) -> (r: Result<u32, PipelineError>)
    ensures
        r is Ok <==> x * x <= u32::MAX,
        r matches Ok(y) ==> y == x * x,
        r matches Err(e) ==> e.kind == ErrorKind::InvalidInput,
{
    if x <= 0xffff {
        assert(x * x <= 0xffff_ffff) by (nonlinear_arith)
            requires
                x <= 0xffff;
        Ok(x * x)
    } else {
        assert(x * x > 0xffff_ffff) by (nonlinear_arith)
            requires
                x > 0xffff;
        Err(PipelineError::new(ErrorKind::InvalidInput, "square overflows"))
    }
}

/// The mock proof the in-browser demonstration returns.
pub struct MockProof {
    pub proof_hex: String,
    pub status: String,
    pub execution_trace_length: u32,
}

impl MockProof {
    /// The fixed demonstration proof.
    pub fn demo() -> (r: MockProof)
        ensures
            r.proof_hex@ == "0x123456789abcdef...mock_proof..."@,
            r.status@ == "success"@,
            r.execution_trace_length == 42,
    {
        MockProof {
            proof_hex: "0x123456789abcdef...mock_proof...".to_owned(),
            status: "success".to_owned(),
            execution_trace_length: 42,
        }
    }
}

/// The outcome handed back to the range-check caller.
pub struct AgeCheckResult {
    pub success: bool,
    pub message: String,
    pub proof_str: String,
}

impl AgeCheckResult {
    pub fn new(success: bool, message: &str, proof_str: &str) -> (r: AgeCheckResult)
        ensures
            r.success == success,
            r.message@ == message@,
            r.proof_str@ == proof_str@,
    {
        AgeCheckResult { success, message: message.to_owned(), proof_str: proof_str.to_owned() }
    }

    pub fn success(&self) -> (r: bool)
        ensures
            r == self.success,
    {
        self.success
    }

    pub fn message(&self) -> (r: String)
        ensures
            r@ == self.message@,
    {
        self.message.clone()
    }

    pub fn proof_str(&self) -> (r: String)
        ensures
            r@ == self.proof_str@,
    {
        self.proof_str.clone()
    }
}

/// Round trip of the whole pipeline, as far as it is this library's to
/// decide: the claim a prover packages into an artifact comes back out of
/// decoding unchanged, and the component the verifier rebuilds from it is
/// satisfied by every row of the prover's own trace.
pub proof fn lemma_prove_verify_round_trip(
    seed_val: u32,
    claim: u32,
    m: Seq<u32>,
    proof_bytes: Seq<u8>,
    time_ms: u64,
)
    requires
        claim as nat == fib_seq(1, f_reduce(seed_val as nat), (FIB_LEN - 1) as nat),
        m.len() == FIB_LEN,
        forall|i: int|
            0 <= i < FIB_LEN ==> m[i] as nat == fib_seq(1, f_reduce(seed_val as nat), i as nat),
        proof_bytes.len() < 0x1_0000_0000,
    ensures
        le4_val(spec_encode(proof_bytes, claim, time_ms).subrange(1, 5)) == claim,
        fib_row_ok(m, f_reduce(claim as nat)),
{
    lemma_encode_decode_round_trip(proof_bytes, claim, time_ms);
    let b0 = f_reduce(seed_val as nat);
    assert(is_felt(b0));
    lemma_fib_seq_felt(1, b0, (FIB_LEN - 1) as nat);
    vstd::arithmetic::div_mod::lemma_small_mod(claim as nat, P as nat);
    lemma_generated_row_ok(m, 1, b0);
}

} // verus!
