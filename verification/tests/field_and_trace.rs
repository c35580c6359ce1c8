use zkpipeline::field::{madd, mmul, mreduce, msquare, msub, P};
use zkpipeline::trace::{fib_sequence, generate_age_trace, generate_trace};
use zkpipeline::FIB_LEN;

#[test]
fn field_add_basic() {
    assert_eq!(madd(3, 4), 7);
    assert_eq!(madd(P - 1, 1), 0);
    assert_eq!(madd(P - 1, P - 1), P - 2);
}

#[test]
fn field_sub_basic() {
    assert_eq!(msub(10, 3), 7);
    assert_eq!(msub(3, 10), P - 7);
    assert_eq!(msub(5, 5), 0);
}

#[test]
fn field_mul_basic() {
    assert_eq!(mmul(3, 5), 15);
    assert_eq!(mmul(P - 1, 2), P - 2);
    assert_eq!(mmul(0, P - 1), 0);
    assert_eq!(msquare(65536), 4294967296u64.rem_euclid(P as u64) as u32);
}

#[test]
fn field_reduce_basic() {
    assert_eq!(mreduce(P), 0);
    assert_eq!(mreduce(P - 1), P - 1);
    assert_eq!(mreduce(u32::MAX), u32::MAX % P);
    assert_eq!(mreduce(42), 42);
}

#[test]
fn fib_sequence_exact_values() {
    let seq = fib_sequence(1, 2);
    assert_eq!(seq.len(), FIB_LEN);
    assert_eq!(&seq[..6], &[1, 2, 5, 29, 866, 750797]);
    assert_eq!(seq[15], 793699796);
}

#[test]
fn fib_sequence_matches_reference_recurrence() {
    let seq = fib_sequence(7, 11);
    for i in 2..FIB_LEN {
        let a = seq[i - 2] as u64;
        let b = seq[i - 1] as u64;
        let expect = ((a * a % P as u64) + (b * b % P as u64)) % P as u64;
        assert_eq!(seq[i] as u64, expect);
    }
}

#[test]
fn generate_trace_shape_and_broadcast() {
    let (trace, claim) = generate_trace(5, 1, 2);
    assert_eq!(trace.len(), FIB_LEN);
    let seq = fib_sequence(1, 2);
    for (c, col) in trace.iter().enumerate() {
        assert_eq!(col.len(), 32);
        for &v in col {
            assert_eq!(v, seq[c]);
        }
    }
    assert_eq!(claim, seq[15]);
    assert_eq!(claim, 793699796);
}

#[test]
fn generate_trace_deterministic() {
    let (t1, c1) = generate_trace(5, 1, 123456);
    let (t2, c2) = generate_trace(5, 1, 123456);
    assert_eq!(t1, t2);
    assert_eq!(c1, c2);
}

#[test]
fn generate_age_trace_constant_column() {
    let trace = generate_age_trace(5, 33);
    assert_eq!(trace.len(), 1);
    assert_eq!(trace[0].len(), 32);
    for &v in &trace[0] {
        assert_eq!(v, 33);
    }
}

#[test]
fn generate_age_trace_reduces_large_values() {
    let trace = generate_age_trace(5, P + 9);
    for &v in &trace[0] {
        assert_eq!(v, 9);
    }
}
