use vstd::prelude::*;

use vstd::arithmetic::div_mod::{
    lemma_div_denominator, lemma_fundamental_div_mod, lemma_fundamental_div_mod_converse,
    lemma_small_mod,
};

use crate::error::{ErrorKind, PipelineError};

verus! {

/// The transportable proof bundle: the engine-native proof bytes, the public
/// claim the verifier must rebuild the component from, and a diagnostic
/// timing that the verifier never checks.
pub struct ProofResult {
    pub proof_bytes: Vec<u8>,
    pub claim_last_val: u32,
    pub time_ms: u64,
}

/// The four little-endian bytes of a machine word.
pub open spec fn spec_u32_le(x: u32) -> Seq<u8> {
    seq![
        (x % 256) as u8,
        ((x / 256) % 256) as u8,
        ((x / 0x10000) % 256) as u8,
        ((x / 0x1000000) % 256) as u8,
    ]
}

/// The value of four little-endian bytes.
pub open spec fn le4_val(s: Seq<u8>) -> int
    recommends
        s.len() == 4,
{
    s[0] + 256 * s[1] + 0x10000 * s[2] + 0x1000000 * s[3]
}

/// The eight little-endian bytes of a wide word.
pub open spec fn spec_u64_le(x: u64) -> Seq<u8> {
    spec_u32_le((x % 0x1_0000_0000) as u32) + spec_u32_le((x / 0x1_0000_0000) as u32)
}

/// The value of eight little-endian bytes.
pub open spec fn le8_val(s: Seq<u8>) -> int
    recommends
        s.len() == 8,
{
    le4_val(s.subrange(0, 4)) + 0x1_0000_0000 * le4_val(s.subrange(4, 8))
}

pub proof fn lemma_le4_roundtrip(x: u32)
    ensures
        le4_val(spec_u32_le(x)) == x,
{
    lemma_fundamental_div_mod(x as int, 256);
    lemma_fundamental_div_mod(x as int / 256, 256);
    lemma_div_denominator(x as int, 256, 256);
    lemma_fundamental_div_mod(x as int / 0x10000, 256);
    lemma_div_denominator(x as int, 0x10000, 256);
    assert(x as int / 0x1000000 < 256) by (nonlinear_arith)
        requires
            x < 0x1_0000_0000;
    lemma_small_mod((x as int / 0x1000000) as nat, 256);
}

pub proof fn lemma_le4_bound(s: Seq<u8>)
    requires
        s.len() == 4,
    ensures
        0 <= le4_val(s) < 0x1_0000_0000,
{
}

pub proof fn lemma_le4_converse(s: Seq<u8>)
    requires
        s.len() == 4,
    ensures
        spec_u32_le(le4_val(s) as u32) == s,
{
    let x = le4_val(s);
    lemma_fundamental_div_mod_converse(x, 256, s[1] + 256 * s[2] + 0x10000 * s[3], s[0] as int);
    let q1 = x / 256;
    assert(q1 == s[1] + 256 * s[2] + 0x10000 * s[3]);
    lemma_fundamental_div_mod_converse(q1, 256, s[2] + 256 * s[3], s[1] as int);
    lemma_div_denominator(x, 256, 256);
    let q2 = x / 0x10000;
    assert(q2 == s[2] + 256 * s[3]);
    lemma_fundamental_div_mod_converse(q2, 256, s[3] as int, s[2] as int);
    lemma_div_denominator(x, 0x10000, 256);
    let q3 = x / 0x1000000;
    assert(q3 == s[3]);
    lemma_small_mod(q3 as nat, 256);
    assert(spec_u32_le(le4_val(s) as u32) =~= s);
}

pub proof fn lemma_le8_roundtrip(x: u64)
    ensures
        le8_val(spec_u64_le(x)) == x,
{
    let lo = (x % 0x1_0000_0000) as u32;
    let hi = (x / 0x1_0000_0000) as u32;
    assert(x as int / 0x1_0000_0000 < 0x1_0000_0000) by (nonlinear_arith)
        requires
            x < 0x1_0000_0000_0000_0000;
    lemma_fundamental_div_mod(x as int, 0x1_0000_0000);
    assert(spec_u64_le(x).subrange(0, 4) =~= spec_u32_le(lo));
    assert(spec_u64_le(x).subrange(4, 8) =~= spec_u32_le(hi));
    lemma_le4_roundtrip(lo);
    lemma_le4_roundtrip(hi);
}

pub proof fn lemma_le8_converse(s: Seq<u8>)
    requires
        s.len() == 8,
    ensures
        spec_u64_le(le8_val(s) as u64) == s,
{
    let lo = le4_val(s.subrange(0, 4));
    let hi = le4_val(s.subrange(4, 8));
    let x = le8_val(s);
    lemma_le4_bound(s.subrange(0, 4));
    lemma_le4_bound(s.subrange(4, 8));
    lemma_fundamental_div_mod_converse(x, 0x1_0000_0000, hi, lo);
    lemma_le4_converse(s.subrange(0, 4));
    lemma_le4_converse(s.subrange(4, 8));
    assert(spec_u64_le(x as u64) =~= s);
}

/// The wire format of a proof artifact: three tagged fields, in order the
/// public claim, the timing diagnostic, and the length-prefixed engine proof
/// bytes.
pub open spec fn spec_encode(proof_bytes: Seq<u8>, claim: u32, time_ms: u64) -> Seq<u8>
    recommends
        proof_bytes.len() < 0x1_0000_0000,
{
    seq![1u8] + spec_u32_le(claim) + seq![2u8] + spec_u64_le(time_ms) + seq![3u8] + spec_u32_le(
        proof_bytes.len() as u32,
    ) + proof_bytes
}

/// A byte sequence that some artifact encodes to: the right tags stand at
/// the fixed offsets and the length field matches the payload.
pub open spec fn wellformed_encoding(s: Seq<u8>) -> bool {
    &&& s.len() >= 19
    &&& s[0] == 1u8
    &&& s[5] == 2u8
    &&& s[14] == 3u8
    &&& s.len() == 19 + le4_val(s.subrange(15, 19))
}

fn push_u32_le(out: &mut Vec<u8>, x: u32)
    ensures
        final(out)@ == old(out)@ + spec_u32_le(x),
{
    out.push((x % 256) as u8);
    out.push(((x / 256) % 256) as u8);
    out.push(((x / 0x10000) % 256) as u8);
    out.push(((x / 0x1000000) % 256) as u8);
    assert(final(out)@ =~= old(out)@ + spec_u32_le(x));
}

fn push_u64_le(out: &mut Vec<u8>, x: u64)
    ensures
        final(out)@ == old(out)@ + spec_u64_le(x),
{
    push_u32_le(out, (x % 0x1_0000_0000) as u32);
    assert(x / 0x1_0000_0000 < 0x1_0000_0000) by (nonlinear_arith)
        requires
            x < 0x1_0000_0000_0000_0000;
    push_u32_le(out, (x / 0x1_0000_0000) as u32);
    assert(final(out)@ =~= old(out)@ + spec_u64_le(x));
}

fn read_u32_le(bytes: &Vec<u8>, off: usize) -> (r: u32)
    requires
        off + 4 <= bytes.len(),
    ensures
        r == le4_val(bytes@.subrange(off as int, off as int + 4)),
{
    let b0 = bytes[off] as u32;
    let b1 = bytes[off + 1] as u32;
    let b2 = bytes[off + 2] as u32;
    let b3 = bytes[off + 3] as u32;
    b0 + 256 * b1 + 0x10000 * b2 + 0x1000000 * b3
}

fn read_u64_le(bytes: &Vec<u8>, off: usize) -> (r: u64)
    requires
        off + 8 <= bytes.len(),
    ensures
        r == le8_val(bytes@.subrange(off as int, off as int + 8)),
{
    let lo = read_u32_le(bytes, off) as u64;
    let hi = read_u32_le(bytes, off + 4) as u64;
    proof {
        assert(bytes@.subrange(off as int, off as int + 8).subrange(0, 4) =~= bytes@.subrange(
            off as int,
            off as int + 4,
        ));
        assert(bytes@.subrange(off as int, off as int + 8).subrange(4, 8) =~= bytes@.subrange(
            off as int + 4,
            off as int + 8,
        ));
        lemma_le4_bound(bytes@.subrange(off as int, off as int + 4));
        lemma_le4_bound(bytes@.subrange(off as int + 4, off as int + 8));
    }
    lo + 0x1_0000_0000 * hi
}

impl ProofResult {
    /// Serializes the artifact into the tagged wire format.
    pub fn encode(&self) -> (r: Vec<u8>)
        requires
            self.proof_bytes.len() < 0x1_0000_0000,
        ensures
            r@ == spec_encode(self.proof_bytes@, self.claim_last_val, self.time_ms),
    {
        let mut out: Vec<u8> = Vec::new();
        out.push(1u8);
        push_u32_le(&mut out, self.claim_last_val);
        out.push(2u8);
        push_u64_le(&mut out, self.time_ms);
        out.push(3u8);
        push_u32_le(&mut out, self.proof_bytes.len() as u32);
        let mut i: usize = 0;
        let ghost head = out@;
        while i < self.proof_bytes.len()
            invariant
                i <= self.proof_bytes.len(),
                out@ == head + self.proof_bytes@.subrange(0, i as int),
            decreases self.proof_bytes.len() - i,
        {
            out.push(self.proof_bytes[i]);
            proof {
                assert(head + self.proof_bytes@.subrange(0, i as int) + seq![
                    self.proof_bytes@[i as int],
                ] =~= head + self.proof_bytes@.subrange(0, i as int + 1));
            }
            i = i + 1;
        }
        proof {
            assert(self.proof_bytes@.subrange(0, self.proof_bytes@.len() as int) =~= self
                .proof_bytes@);
            assert(out@ =~= spec_encode(self.proof_bytes@, self.claim_last_val, self.time_ms));
        }
        out
    }

    /// Parses a byte sequence as a proof artifact. Returns the artifact
    /// exactly when the bytes are a well-formed encoding; any other input is
    /// reported as a deserialization failure, never a crash.
    pub fn decode(bytes: &Vec<u8>) -> (r: Result<ProofResult, PipelineError>)
        ensures
            r is Ok <==> wellformed_encoding(bytes@),
            match r {
                Ok(a) => {
                    &&& bytes@ == spec_encode(a.proof_bytes@, a.claim_last_val, a.time_ms)
                    &&& a.claim_last_val == le4_val(bytes@.subrange(1, 5))
                    &&& a.time_ms == le8_val(bytes@.subrange(6, 14))
                    &&& a.proof_bytes@ == bytes@.subrange(19, bytes@.len() as int)
                },
                Err(e) => e.kind == ErrorKind::DeserializationFailure,
            },
    {
        if bytes.len() < 19 {
            return Err(
                PipelineError::new(ErrorKind::DeserializationFailure, "artifact too short"),
            );
        }
        if bytes[0] != 1u8 || bytes[5] != 2u8 || bytes[14] != 3u8 {
            return Err(
                PipelineError::new(ErrorKind::DeserializationFailure, "artifact field tags broken"),
            );
        }
        let claim = read_u32_le(bytes, 1);
        let time = read_u64_le(bytes, 6);
        let plen = read_u32_le(bytes, 15);
        proof {
            lemma_le4_bound(bytes@.subrange(15, 19));
        }
        if (bytes.len() - 19) as u64 != plen as u64 {
            return Err(
                PipelineError::new(
                    ErrorKind::DeserializationFailure,
                    "artifact length field does not match payload",
                ),
            );
        }
        let mut payload: Vec<u8> = Vec::new();
        let mut i: usize = 19;
        while i < bytes.len()
            invariant
                19 <= i <= bytes.len(),
                payload@ == bytes@.subrange(19, i as int),
            decreases bytes.len() - i,
        {
            payload.push(bytes[i]);
            proof {
                assert(bytes@.subrange(19, i as int) + seq![bytes@[i as int]] =~= bytes@.subrange(
                    19,
                    i as int + 1,
                ));
            }
            i = i + 1;
        }
        let result = ProofResult { proof_bytes: payload, claim_last_val: claim, time_ms: time };
        proof {
            lemma_le4_converse(bytes@.subrange(1, 5));
            lemma_le8_converse(bytes@.subrange(6, 14));
            lemma_le4_converse(bytes@.subrange(15, 19));
            assert(bytes@ =~= spec_encode(
                result.proof_bytes@,
                result.claim_last_val,
                result.time_ms,
            ));
        }
        Ok(result)
    }
}

/// Round trip: an encoded artifact is well formed, and decoding recovers the
/// claim, the timing and the proof bytes that were encoded.
pub proof fn lemma_encode_decode_round_trip(proof_bytes: Seq<u8>, claim: u32, time_ms: u64)
    requires
        proof_bytes.len() < 0x1_0000_0000,
    ensures
        wellformed_encoding(spec_encode(proof_bytes, claim, time_ms)),
        le4_val(spec_encode(proof_bytes, claim, time_ms).subrange(1, 5)) == claim,
        le8_val(spec_encode(proof_bytes, claim, time_ms).subrange(6, 14)) == time_ms,
        spec_encode(proof_bytes, claim, time_ms).subrange(
            19,
            spec_encode(proof_bytes, claim, time_ms).len() as int,
        ) == proof_bytes,
{
    let s = spec_encode(proof_bytes, claim, time_ms);
    assert(s.subrange(1, 5) =~= spec_u32_le(claim));
    assert(s.subrange(6, 14) =~= spec_u64_le(time_ms));
    assert(s.subrange(15, 19) =~= spec_u32_le(proof_bytes.len() as u32));
    assert(s.subrange(19, s.len() as int) =~= proof_bytes);
    lemma_le4_roundtrip(claim);
    lemma_le8_roundtrip(time_ms);
    lemma_le4_roundtrip(proof_bytes.len() as u32);
}

} // verus!
