use zkpipeline::artifact::ProofResult;
use zkpipeline::component::{AgeCheckEval, ConstraintAccumulator, FibonacciEval};
use zkpipeline::engine::parse_artifact_checked;
use zkpipeline::error::{ErrorKind, PipelineError};
use zkpipeline::pipeline::{
    age_from_birth_year, age_prover_schedule, age_twiddle_log, age_verifier_schedule,
    fib_prover_schedule, fib_trace_log_degree_bounds, fib_twiddle_log, fib_verifier_schedule,
    package_artifact, prove_fib_prepare, rebuild_fib_component, square_checked, AgeCheckResult,
    MockProof, TwiddleCache, CURRENT_YEAR,
};
use zkpipeline::{FIB_LEN, LOG_N_ROWS};

#[test]
fn future_birth_year_is_invalid_input() {
    let err = age_from_birth_year(CURRENT_YEAR + 1, CURRENT_YEAR).err().expect("must fail");
    assert_eq!(err.kind, ErrorKind::InvalidInput);
    assert_eq!(err.message(), "Invalid birth year (future)");
    let err = age_from_birth_year(3000, CURRENT_YEAR).err().expect("must fail");
    assert_eq!(err.kind, ErrorKind::InvalidInput);
}

#[test]
fn past_birth_year_gives_age() {
    assert_eq!(age_from_birth_year(1990, 2025).unwrap(), 35);
    assert_eq!(age_from_birth_year(2025, 2025).unwrap(), 0);
}

#[test]
fn prove_fib_prepare_is_deterministic() {
    let (t1, c1) = prove_fib_prepare(5);
    let (t2, c2) = prove_fib_prepare(5);
    assert_eq!(t1, t2);
    assert_eq!(c1, c2);
    assert_eq!(t1.len(), FIB_LEN);
    assert_eq!(t1[0][0], 1);
    assert_eq!(t1[1][0], 5);
}

#[test]
fn rebuild_fib_component_matches_prover_side() {
    let (_, claim) = prove_fib_prepare(2);
    let component = rebuild_fib_component(claim);
    assert_eq!(component.log_n_rows, LOG_N_ROWS);
    assert_eq!(component.claim_last, claim);
    assert_eq!(component.claim_last, 793699796);
}

#[test]
fn commit_schedules_coincide_between_prover_and_verifier() {
    let fib = FibonacciEval { log_n_rows: LOG_N_ROWS, claim_last: 1 };
    assert_eq!(fib_prover_schedule(&fib), fib_verifier_schedule(&fib));
    assert_eq!(fib_prover_schedule(&fib), vec![vec![LOG_N_ROWS; FIB_LEN]]);
    let age = AgeCheckEval { log_n_rows: LOG_N_ROWS };
    assert_eq!(age_prover_schedule(&age), age_verifier_schedule(&age));
    assert_eq!(age_prover_schedule(&age), vec![Vec::new(), vec![LOG_N_ROWS]]);
}

#[test]
fn trace_log_degree_bounds_match_column_layout() {
    let fib = FibonacciEval { log_n_rows: 5, claim_last: 1 };
    assert_eq!(fib_trace_log_degree_bounds(&fib), vec![5u32; FIB_LEN]);
}

#[test]
fn twiddle_cache_initializes_once() {
    let mut cache = TwiddleCache::new();
    cache.init(fib_twiddle_log(LOG_N_ROWS, 1));
    assert_eq!(cache.required_log(), 7);
    cache.init(99);
    assert_eq!(cache.required_log(), 7);
}

#[test]
fn twiddle_cache_use_before_init_is_a_precondition_violation() {
    let cache = TwiddleCache::new();
    let err = cache.try_required_log().err().expect("uninitialized cache must fail");
    assert_eq!(err.kind, ErrorKind::PreconditionViolation);
    let mut cache = TwiddleCache::new();
    cache.init(7);
    assert_eq!(cache.try_required_log().unwrap(), 7);
}

#[test]
fn twiddle_logs() {
    assert_eq!(fib_twiddle_log(5, 1), 7);
    assert_eq!(age_twiddle_log(5, 8), 22);
}

#[test]
fn square_checked_bounds() {
    assert_eq!(square_checked(0).unwrap(), 0);
    assert_eq!(square_checked(3).unwrap(), 9);
    assert_eq!(square_checked(0xFFFF).unwrap(), 0xFFFE_0001);
    let err = square_checked(0x1_0000).err().expect("overflow must fail");
    assert_eq!(err.kind, ErrorKind::InvalidInput);
}

#[test]
fn mock_proof_fields() {
    let proof = MockProof::demo();
    assert_eq!(proof.proof_hex, "0x123456789abcdef...mock_proof...");
    assert_eq!(proof.status, "success");
    assert_eq!(proof.execution_trace_length, 42);
}

#[test]
fn age_check_result_getters() {
    let r = AgeCheckResult::new(true, "Proof generated and verified for Age: 35.", "proof text");
    assert!(r.success());
    assert_eq!(r.message(), "Proof generated and verified for Age: 35.");
    assert_eq!(r.proof_str(), "proof text");
}

#[test]
fn package_and_parse_artifact_rejects_garbage_proof_bytes() {
    let bytes = package_artifact(vec![0xFF; 4], 7, 0);
    let err = parse_artifact_checked(&bytes).err().expect("garbage proof bytes must fail");
    assert_eq!(err.kind, ErrorKind::DeserializationFailure);
}

#[test]
fn parse_artifact_rejects_malformed_container() {
    let err = parse_artifact_checked(&vec![0u8; 10]).err().expect("malformed container");
    assert_eq!(err.kind, ErrorKind::DeserializationFailure);
}

#[test]
fn package_artifact_encodes_claim() {
    let bytes = package_artifact(Vec::new(), 0xDEAD_BEEF, 17);
    let decoded = ProofResult::decode(&bytes).unwrap();
    assert_eq!(decoded.claim_last_val, 0xDEAD_BEEF);
    assert_eq!(decoded.time_ms, 17);
}

#[test]
fn prepared_trace_satisfies_rebuilt_component() {
    let (trace, claim) = prove_fib_prepare(2);
    let bytes = package_artifact(vec![0xAB; 8], claim, 12);
    let artifact = ProofResult::decode(&bytes).expect("packaged artifact must decode");
    assert_eq!(artifact.claim_last_val, claim);
    let component = rebuild_fib_component(artifact.claim_last_val);
    let row: Vec<u32> = trace.iter().map(|col| col[0]).collect();
    let out = component.evaluate(ConstraintAccumulator::new(row));
    assert!(out.constraints.iter().all(|&c| c == 0));
}

#[test]
fn tampered_claim_breaks_rebuilt_component() {
    let (trace, claim) = prove_fib_prepare(2);
    let component = rebuild_fib_component(claim.wrapping_add(1));
    let row: Vec<u32> = trace.iter().map(|col| col[0]).collect();
    let out = component.evaluate(ConstraintAccumulator::new(row));
    assert!(out.constraints.iter().any(|&c| c != 0));
}

#[test]
fn swapped_tree_order_is_a_different_schedule() {
    let age = AgeCheckEval { log_n_rows: LOG_N_ROWS };
    let schedule = age_prover_schedule(&age);
    let swapped: Vec<Vec<u32>> = vec![schedule[1].clone(), schedule[0].clone()];
    assert_ne!(schedule, swapped);
}

#[test]
fn engine_failures_carry_their_diagnostic() {
    let err = PipelineError::new(ErrorKind::EngineFailure, "Proving error: constraints not satisfied");
    assert_eq!(err.kind, ErrorKind::EngineFailure);
    assert_eq!(err.message(), "Proving error: constraints not satisfied");
}

#[test]
fn parse_verdict_ignores_timing_field() {
    let with_t1 = package_artifact(vec![0xFF; 4], 7, 1);
    let with_t2 = package_artifact(vec![0xFF; 4], 7, 999_999);
    assert_ne!(with_t1, with_t2);
    let r1 = parse_artifact_checked(&with_t1);
    let r2 = parse_artifact_checked(&with_t2);
    assert_eq!(r1.is_ok(), r2.is_ok());
}

#[test]
fn parse_verdict_is_deterministic() {
    let bytes = package_artifact(vec![0xFF; 4], 7, 0);
    assert_eq!(
        parse_artifact_checked(&bytes).is_ok(),
        parse_artifact_checked(&bytes).is_ok(),
    );
}

#[test]
fn evaluate_consumes_exactly_the_declared_masks() {
    let (trace, claim) = prove_fib_prepare(2);
    let component = rebuild_fib_component(claim);
    let row: Vec<u32> = trace.iter().map(|col| col[0]).collect();
    let out = component.evaluate(ConstraintAccumulator::new(row));
    assert_eq!(out.next, FIB_LEN);
    let age = AgeCheckEval { log_n_rows: LOG_N_ROWS };
    let out = age.evaluate(ConstraintAccumulator::new(vec![30]));
    assert_eq!(out.next, 1);
}
