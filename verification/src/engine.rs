use vstd::prelude::*;

use crate::artifact::{le4_val, lemma_encode_decode_round_trip, spec_encode, wellformed_encoding, ProofResult};
use crate::error::{ErrorKind, PipelineError};

verus! {

/// Whether a byte sequence is the engine's native serialization of a proof
/// object: a function of the bytes alone, decided by the engine's format.
pub uninterp spec fn engine_parse_ok(bytes: Seq<u8>) -> bool;

/// Relies on bincode::deserialize: reports whether the bytes parse as the
/// engine's native serialization of a proof object. The slice-based decoder
/// is a pure function of its input and never panics on malformed bytes.
#[verifier::external_body]
fn engine_proof_bytes_parse(bytes: &Vec<u8>) -> (r: bool)
    ensures
        r == engine_parse_ok(bytes@),
{
    bincode::deserialize::<
        stwo::core::proof::StarkProof<
            stwo::core::vcs_lifted::blake2_merkle::Blake2sM31MerkleHasher,
        >,
    >(bytes.as_slice()).is_ok()
}

/// The verifier's parsing stage: decodes the transportable artifact and
/// checks that the proof bytes inside it parse as an engine proof object.
/// Success is owed exactly on a well-formed artifact whose payload the
/// engine's format accepts; every failure is a typed deserialization
/// failure, never a crash.
pub fn parse_artifact_checked(bytes: &Vec<u8>) -> (r: Result<ProofResult, PipelineError>)
    ensures
        r is Ok <==> wellformed_encoding(bytes@) && engine_parse_ok(
            bytes@.subrange(19, bytes@.len() as int),
        ),
        r matches Ok(a) ==> crate::artifact::spec_encode(
            a.proof_bytes@,
            a.claim_last_val,
            a.time_ms,
        ) == bytes@,
        r matches Err(e) ==> e.kind == ErrorKind::DeserializationFailure,
{
    let artifact = match ProofResult::decode(bytes) {
        Ok(artifact) => artifact,
        Err(e) => {
            return Err(e);
        },
    };
    if !engine_proof_bytes_parse(&artifact.proof_bytes) {
        return Err(
            PipelineError::new(ErrorKind::DeserializationFailure, "engine proof bytes malformed"),
        );
    }
    Ok(artifact)
}

/// The timing field is diagnostic only: two artifacts that differ in nothing
/// but `time_ms` are both well formed, carry the same claim and the same
/// proof bytes, and the engine's format accepts the payload of one exactly
/// when it accepts the payload of the other. With the parsing stage's
/// contract this makes the verifier's parse verdict independent of timing.
pub proof fn lemma_parse_ignores_timing(proof_bytes: Seq<u8>, claim: u32, t1: u64, t2: u64)
    ensures
        ({
            let s1 = spec_encode(proof_bytes, claim, t1);
            let s2 = spec_encode(proof_bytes, claim, t2);
            proof_bytes.len() < 0x1_0000_0000 ==> {
                &&& wellformed_encoding(s1) && wellformed_encoding(s2)
                &&& le4_val(s1.subrange(1, 5)) == claim && le4_val(s2.subrange(1, 5)) == claim
                &&& s1.subrange(19, s1.len() as int) == proof_bytes
                &&& s2.subrange(19, s2.len() as int) == proof_bytes
                &&& engine_parse_ok(s1.subrange(19, s1.len() as int)) == engine_parse_ok(
                    s2.subrange(19, s2.len() as int),
                )
            }
        }),
{
    if proof_bytes.len() < 0x1_0000_0000 {
        lemma_encode_decode_round_trip(proof_bytes, claim, t1);
        lemma_encode_decode_round_trip(proof_bytes, claim, t2);
    }
}

} // verus!