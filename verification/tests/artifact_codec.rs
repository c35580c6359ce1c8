use zkpipeline::artifact::ProofResult;
use zkpipeline::error::ErrorKind;

fn artifact(proof_bytes: Vec<u8>, claim: u32, time_ms: u64) -> ProofResult {
    ProofResult { proof_bytes, claim_last_val: claim, time_ms }
}

#[test]
fn encode_exact_byte_layout() {
    let bytes = artifact(vec![0xAA, 0xBB], 0x0102_0304, 5).encode();
    let expected: Vec<u8> = vec![
        1, 0x04, 0x03, 0x02, 0x01, 2, 5, 0, 0, 0, 0, 0, 0, 0, 3, 2, 0, 0, 0, 0xAA, 0xBB,
    ];
    assert_eq!(bytes, expected);
}

#[test]
fn decode_recovers_encoded_artifact() {
    let original = artifact(vec![7, 8, 9, 10], 793699796, 123456789012345);
    let bytes = original.encode();
    let decoded = ProofResult::decode(&bytes).expect("round trip must succeed");
    assert_eq!(decoded.proof_bytes, vec![7, 8, 9, 10]);
    assert_eq!(decoded.claim_last_val, 793699796);
    assert_eq!(decoded.time_ms, 123456789012345);
}

#[test]
fn decode_empty_payload_round_trip() {
    let bytes = artifact(Vec::new(), 0, 0).encode();
    assert_eq!(bytes.len(), 19);
    let decoded = ProofResult::decode(&bytes).expect("empty payload is valid");
    assert!(decoded.proof_bytes.is_empty());
}

#[test]
fn decode_rejects_short_input() {
    for n in 0..19usize {
        let bytes = vec![1u8; n];
        let err = ProofResult::decode(&bytes).err().expect("short input must fail");
        assert_eq!(err.kind, ErrorKind::DeserializationFailure);
    }
}

#[test]
fn decode_rejects_bad_tags() {
    let good = artifact(vec![1, 2, 3], 42, 7).encode();
    for pos in [0usize, 5, 14] {
        let mut bad = good.clone();
        bad[pos] ^= 0xFF;
        let err = ProofResult::decode(&bad).err().expect("broken tag must fail");
        assert_eq!(err.kind, ErrorKind::DeserializationFailure);
    }
}

#[test]
fn decode_rejects_wrong_length_field() {
    let mut bytes = artifact(vec![1, 2, 3], 42, 7).encode();
    bytes[15] = 99;
    let err = ProofResult::decode(&bytes).err().expect("length mismatch must fail");
    assert_eq!(err.kind, ErrorKind::DeserializationFailure);
}

#[test]
fn decode_arbitrary_bytes_never_panics() {
    let mut state: u64 = 0x1234_5678_9abc_def0;
    for len in 0..200usize {
        let mut bytes = Vec::with_capacity(len);
        for _ in 0..len {
            state = state.wrapping_mul(6364136223846793005).wrapping_add(1442695040888963407);
            bytes.push((state >> 33) as u8);
        }
        match ProofResult::decode(&bytes) {
            Ok(a) => assert_eq!(a.encode(), bytes),
            Err(e) => assert_eq!(e.kind, ErrorKind::DeserializationFailure),
        }
    }
}

#[test]
fn tampered_claim_field_changes_decoded_claim() {
    let bytes = artifact(vec![5, 6], 1000, 3).encode();
    let mut tampered = bytes.clone();
    tampered[1] ^= 0x01;
    let honest = ProofResult::decode(&bytes).unwrap();
    let forged = ProofResult::decode(&tampered).unwrap();
    assert_eq!(honest.claim_last_val, 1000);
    assert_ne!(forged.claim_last_val, honest.claim_last_val);
    assert_eq!(forged.proof_bytes, honest.proof_bytes);
}
