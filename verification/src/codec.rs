//! The envelope codec: a fixed binary wire format for the proof envelope and
//! for the public commitments it carries. Integers are little-endian with
//! fixed width; variable-length byte fields carry a 64-bit length prefix;
//! enums carry a 32-bit tag. Decoding is strict on structure and permissive
//! on unknown tags. Encoding and decoding are specified as total functions on
//! byte sequences, and the executable functions are proved to match them.

use vstd::prelude::*;

verus! {

use vstd::bytes::{spec_u64_to_le_bytes, spec_u64_from_le_bytes, spec_u32_to_le_bytes,
    spec_u32_from_le_bytes, lemma_auto_spec_u64_to_from_le_bytes,
    lemma_auto_spec_u32_to_from_le_bytes};
use vstd::utf8::{valid_utf8, decode_utf8, encode_utf8};
use vstd::slice::{slice_subrange, slice_to_vec};
use crate::types::{SP1Proof, SP1ProofView, ZkProof, ZkProofView, ProofKind, ProofData,
    ProofDataView, AccountStateCommitment, AccountStateCommitmentView, PublicCommitments,
    PublicCommitmentsView, views_of_accounts};

/// Why a decode failed. Structural faults only: unknown tags do not fail.
#[derive(Debug, Clone, Copy, PartialEq, Eq, Structural)]
pub enum DecodeError {
    /// The input ended before a field was complete.
    Truncated,
    /// The identifier bytes are not valid UTF-8.
    InvalidIdentifier,
    /// A boolean field held a byte other than 0 or 1.
    InvalidBool,
    /// Input bytes remained after a complete value.
    TrailingBytes,
}

// ---------------------------------------------------------------------------
// Specification-level encoders.
// ---------------------------------------------------------------------------

pub open spec fn enc_u64(x: u64) -> Seq<u8> {
    spec_u64_to_le_bytes(x)
}

pub open spec fn enc_u32(x: u32) -> Seq<u8> {
    spec_u32_to_le_bytes(x)
}

pub open spec fn enc_bool(v: bool) -> Seq<u8> {
    seq![if v { 1u8 } else { 0u8 }]
}

/// A 64-bit length prefix followed by the bytes themselves.
pub open spec fn enc_lenbytes(s: Seq<u8>) -> Seq<u8> {
    enc_u64(s.len() as u64) + s
}

pub open spec fn enc_proof_kind(k: ProofKind) -> Seq<u8> {
    match k {
        ProofKind::ExecutionProof(v) => enc_u32(0) + enc_u64(v),
        ProofKind::SolanaConsensusProof => enc_u32(1),
        ProofKind::Unknown(t) => enc_u32(t),
    }
}

pub open spec fn enc_proof_data(d: ProofDataView) -> Seq<u8> {
    match d {
        ProofDataView::SP1(p) => enc_u32(0) + enc_u64(p.version) + enc_lenbytes(p.proof)
            + enc_lenbytes(p.public_value) + p.verification_key,
        ProofDataView::Unknown(t, payload) => enc_u32(t) + payload,
    }
}

/// The whole envelope: identifier as length-prefixed UTF-8 bytes, then kind,
/// then payload.
pub open spec fn spec_encode_envelope(e: ZkProofView) -> Seq<u8> {
    enc_lenbytes(encode_utf8(e.identifier)) + enc_proof_kind(e.proof_kind) + enc_proof_data(
        e.proof_data,
    )
}

// ---------------------------------------------------------------------------
// Specification-level parsers. Each returns the parsed value and the position
// after it, or the error the input forces.
// ---------------------------------------------------------------------------

pub open spec fn sp_take(b: Seq<u8>, pos: int, n: int) -> Result<(Seq<u8>, int), DecodeError> {
    if 0 <= pos && 0 <= n && pos + n <= b.len() {
        Ok((b.subrange(pos, pos + n), pos + n))
    } else {
        Err(DecodeError::Truncated)
    }
}

pub open spec fn sp_u64(b: Seq<u8>, pos: int) -> Result<(u64, int), DecodeError> {
    match sp_take(b, pos, 8) {
        Ok((s, p)) => Ok((spec_u64_from_le_bytes(s), p)),
        Err(e) => Err(e),
    }
}

pub open spec fn sp_u32(b: Seq<u8>, pos: int) -> Result<(u32, int), DecodeError> {
    match sp_take(b, pos, 4) {
        Ok((s, p)) => Ok((spec_u32_from_le_bytes(s), p)),
        Err(e) => Err(e),
    }
}

pub open spec fn sp_bool(b: Seq<u8>, pos: int) -> Result<(bool, int), DecodeError> {
    match sp_take(b, pos, 1) {
        Ok((s, p)) => if s[0] == 0 {
            Ok((false, p))
        } else if s[0] == 1 {
            Ok((true, p))
        } else {
            Err(DecodeError::InvalidBool)
        },
        Err(e) => Err(e),
    }
}

pub open spec fn sp_lenbytes(b: Seq<u8>, pos: int) -> Result<(Seq<u8>, int), DecodeError> {
    match sp_u64(b, pos) {
        Ok((n, p)) => sp_take(b, p, n as int),
        Err(e) => Err(e),
    }
}

pub open spec fn sp_proof_kind(b: Seq<u8>, pos: int) -> Result<(ProofKind, int), DecodeError> {
    match sp_u32(b, pos) {
        Ok((t, p)) => if t == 0 {
            match sp_u64(b, p) {
                Ok((v, p2)) => Ok((ProofKind::ExecutionProof(v), p2)),
                Err(e) => Err(e),
            }
        } else if t == 1 {
            Ok((ProofKind::SolanaConsensusProof, p))
        } else {
            Ok((ProofKind::Unknown(t), p))
        },
        Err(e) => Err(e),
    }
}

pub open spec fn sp_proof_data(b: Seq<u8>, pos: int) -> Result<(ProofDataView, int), DecodeError> {
    match sp_u32(b, pos) {
        Ok((t, p)) => if t == 0 {
            match sp_u64(b, p) {
                Ok((ver, p1)) => match sp_lenbytes(b, p1) {
                    Ok((proof, p2)) => match sp_lenbytes(b, p2) {
                        Ok((pv, p3)) => match sp_take(b, p3, 32) {
                            Ok((vk, p4)) => Ok(
                                (
                                    ProofDataView::SP1(
                                        SP1ProofView {
                                            version: ver,
                                            proof,
                                            public_value: pv,
                                            verification_key: vk,
                                        },
                                    ),
                                    p4,
                                ),
                            ),
                            Err(e) => Err(e),
                        },
                        Err(e) => Err(e),
                    },
                    Err(e) => Err(e),
                },
                Err(e) => Err(e),
            }
        } else {
            // An unknown family: keep the raw payload, to the end of the
            // input, for forward compatibility.
            Ok((ProofDataView::Unknown(t, b.subrange(p, b.len() as int)), b.len() as int))
        },
        Err(e) => Err(e),
    }
}

/// What decoding a byte sequence yields: the envelope, or the error the input
/// forces. The input must be exactly one envelope, with nothing after it.
pub open spec fn spec_decode_envelope(b: Seq<u8>) -> Result<ZkProofView, DecodeError> {
    match sp_lenbytes(b, 0) {
        Ok((idb, p0)) => if !valid_utf8(idb) {
            Err(DecodeError::InvalidIdentifier)
        } else {
            match sp_proof_kind(b, p0) {
                Ok((k, p1)) => match sp_proof_data(b, p1) {
                    Ok((d, p2)) => if p2 == b.len() {
                        Ok(
                            ZkProofView {
                                identifier: decode_utf8(idb),
                                proof_kind: k,
                                proof_data: d,
                            },
                        )
                    } else {
                        Err(DecodeError::TrailingBytes)
                    },
                    Err(e) => Err(e),
                },
                Err(e) => Err(e),
            }
        },
        Err(e) => Err(e),
    }
}

// ---------------------------------------------------------------------------
// Executable encoding.
// ---------------------------------------------------------------------------

/// Append a slice to the output.
pub(crate) fn push_bytes(out: &mut Vec<u8>, b: &[u8])
    ensures
        final(out)@ == old(out)@ + b@,
{
    let mut i: usize = 0;
    while i < b.len()
        invariant
            i <= b@.len(),
            out@ == old(out)@ + b@.take(i as int),
        decreases b@.len() - i,
    {
        out.push(*vstd::slice::slice_index_get(b, i));
        proof {
            assert(out@ =~= old(out)@ + b@.take(i + 1));
        }
        i += 1;
    }
    proof {
        assert(b@.take(b@.len() as int) =~= b@);
    }
}

pub(crate) fn push_u64(out: &mut Vec<u8>, x: u64)
    ensures
        final(out)@ == old(out)@ + enc_u64(x),
{
    let bytes = vstd::bytes::u64_to_le_bytes(x);
    push_bytes(out, bytes.as_slice());
}

pub(crate) fn push_u32(out: &mut Vec<u8>, x: u32)
    ensures
        final(out)@ == old(out)@ + enc_u32(x),
{
    let bytes = vstd::bytes::u32_to_le_bytes(x);
    push_bytes(out, bytes.as_slice());
}

pub(crate) fn push_lenbytes(out: &mut Vec<u8>, b: &[u8])
    ensures
        final(out)@ == old(out)@ + enc_lenbytes(b@),
{
    let n = b.len();
    push_u64(out, n as u64);
    push_bytes(out, b);
    proof {
        assert(out@ =~= old(out)@ + enc_lenbytes(b@));
    }
}

/// Encode an envelope into its wire bytes.
pub fn encode_envelope(e: &ZkProof) -> (r: Vec<u8>)
    ensures
        r@ == spec_encode_envelope(e@),
{
    let mut out: Vec<u8> = Vec::new();
    push_lenbytes(&mut out, e.identifier.as_str().as_bytes());
    match &e.proof_kind {
        ProofKind::ExecutionProof(v) => {
            push_u32(&mut out, 0);
            push_u64(&mut out, *v);
        },
        ProofKind::SolanaConsensusProof => {
            push_u32(&mut out, 1);
        },
        ProofKind::Unknown(t) => {
            push_u32(&mut out, *t);
        },
    }
    match &e.proof_data {
        ProofData::SP1(p) => {
            push_u32(&mut out, 0);
            push_u64(&mut out, p.version);
            push_lenbytes(&mut out, p.proof.as_slice());
            push_lenbytes(&mut out, p.public_value.as_slice());
            push_bytes(&mut out, p.verification_key.as_slice());
        },
        ProofData::Unknown(t, payload) => {
            push_u32(&mut out, *t);
            push_bytes(&mut out, payload.as_slice());
        },
    }
    proof {
        assert(out@ =~= spec_encode_envelope(e@));
    }
    out
}

// ---------------------------------------------------------------------------
// Executable decoding. Each reader's result is related to the matching
// specification parser.
// ---------------------------------------------------------------------------

pub(crate) open spec fn res_u64_view(r: Result<(u64, usize), DecodeError>) -> Result<
    (u64, int),
    DecodeError,
> {
    match r {
        Ok((x, p)) => Ok((x, p as int)),
        Err(e) => Err(e),
    }
}

pub(crate) fn read_u64(b: &[u8], pos: usize) -> (r: Result<(u64, usize), DecodeError>)
    ensures
        res_u64_view(r) == sp_u64(b@, pos as int),
        r matches Ok((x, p)) ==> pos < p <= b@.len(),
{
    if pos > b.len() || b.len() - pos < 8 {
        return Err(DecodeError::Truncated);
    }
    let s = slice_subrange(b, pos, pos + 8);
    let x = vstd::bytes::u64_from_le_bytes(s);
    Ok((x, pos + 8))
}

pub(crate) open spec fn res_u32_view(r: Result<(u32, usize), DecodeError>) -> Result<
    (u32, int),
    DecodeError,
> {
    match r {
        Ok((x, p)) => Ok((x, p as int)),
        Err(e) => Err(e),
    }
}

pub(crate) fn read_u32(b: &[u8], pos: usize) -> (r: Result<(u32, usize), DecodeError>)
    ensures
        res_u32_view(r) == sp_u32(b@, pos as int),
        r matches Ok((x, p)) ==> pos < p <= b@.len(),
{
    if pos > b.len() || b.len() - pos < 4 {
        return Err(DecodeError::Truncated);
    }
    let s = slice_subrange(b, pos, pos + 4);
    let x = vstd::bytes::u32_from_le_bytes(s);
    Ok((x, pos + 4))
}

pub(crate) open spec fn res_bytes_view(r: Result<(Vec<u8>, usize), DecodeError>) -> Result<
    (Seq<u8>, int),
    DecodeError,
> {
    match r {
        Ok((v, p)) => Ok((v@, p as int)),
        Err(e) => Err(e),
    }
}

/// Read exactly `n` bytes.
pub(crate) fn read_exact(b: &[u8], pos: usize, n: usize) -> (r: Result<(Vec<u8>, usize), DecodeError>)
    ensures
        res_bytes_view(r) == sp_take(b@, pos as int, n as int),
        r matches Ok((v, p)) ==> pos <= p <= b@.len(),
{
    if pos > b.len() || b.len() - pos < n {
        return Err(DecodeError::Truncated);
    }
    let s = slice_subrange(b, pos, pos + n);
    Ok((slice_to_vec(s), pos + n))
}

/// Read a 64-bit length prefix, then that many bytes.
pub(crate) fn read_lenbytes(b: &[u8], pos: usize) -> (r: Result<(Vec<u8>, usize), DecodeError>)
    ensures
        res_bytes_view(r) == sp_lenbytes(b@, pos as int),
        r matches Ok((v, p)) ==> pos < p <= b@.len(),
{
    let (n, p) = match read_u64(b, pos) {
        Ok(t) => t,
        Err(e) => {
            return Err(e);
        },
    };
    if n > (b.len() - p) as u64 {
        proof {
            assert(sp_take(b@, p as int, n as int) == Err::<(Seq<u8>, int), DecodeError>(
                DecodeError::Truncated,
            ));
        }
        return Err(DecodeError::Truncated);
    }
    let n_usize = n as usize;
    read_exact(b, p, n_usize)
}

/// Decode one envelope from its wire bytes. Succeeds exactly when the
/// specification decoder does, with the same value or the same error.
pub fn decode_envelope(bytes: &[u8]) -> (r: Result<ZkProof, DecodeError>)
    ensures
        r matches Ok(p) ==> spec_decode_envelope(bytes@) == Ok::<ZkProofView, DecodeError>(p@),
        r matches Err(e) ==> spec_decode_envelope(bytes@) == Err::<ZkProofView, DecodeError>(e),
{
    let (idb, p0) = match read_lenbytes(bytes, 0) {
        Ok(t) => t,
        Err(e) => {
            return Err(e);
        },
    };
    let identifier = match crate::utils::bytes_to_string(idb.as_slice()) {
        Some(s) => s,
        None => {
            return Err(DecodeError::InvalidIdentifier);
        },
    };
    let (kind, p1) = match read_u32(bytes, p0) {
        Ok((t, p)) => {
            if t == 0 {
                match read_u64(bytes, p) {
                    Ok((v, p2)) => (ProofKind::ExecutionProof(v), p2),
                    Err(e) => {
                        return Err(e);
                    },
                }
            } else if t == 1 {
                (ProofKind::SolanaConsensusProof, p)
            } else {
                (ProofKind::Unknown(t), p)
            }
        },
        Err(e) => {
            return Err(e);
        },
    };
    proof {
        assert(sp_proof_kind(bytes@, p0 as int) == Ok::<(ProofKind, int), DecodeError>(
            (kind, p1 as int),
        ));
    }
    let (data, p2) = match read_u32(bytes, p1) {
        Ok((t, p)) => {
            if t == 0 {
                let (version, q1) = match read_u64(bytes, p) {
                    Ok(t) => t,
                    Err(e) => {
                        return Err(e);
                    },
                };
                let (proof, q2) = match read_lenbytes(bytes, q1) {
                    Ok(t) => t,
                    Err(e) => {
                        return Err(e);
                    },
                };
                let (public_value, q3) = match read_lenbytes(bytes, q2) {
                    Ok(t) => t,
                    Err(e) => {
                        return Err(e);
                    },
                };
                let (vk, q4) = match read_exact(bytes, q3, 32) {
                    Ok(t) => t,
                    Err(e) => {
                        return Err(e);
                    },
                };
                let verification_key = crate::utils::to_bytes32(vk.as_slice());
                (
                    ProofData::SP1(
                        SP1Proof { version, proof, public_value, verification_key },
                    ),
                    q4,
                )
            } else {
                let rest = slice_to_vec(b_tail(bytes, p));
                (ProofData::Unknown(t, rest), bytes.len())
            }
        },
        Err(e) => {
            return Err(e);
        },
    };
    proof {
        assert(sp_proof_data(bytes@, p1 as int) == Ok::<(ProofDataView, int), DecodeError>(
            (data@, p2 as int),
        ));
    }
    if p2 != bytes.len() {
        return Err(DecodeError::TrailingBytes);
    }
    Ok(ZkProof { identifier, proof_kind: kind, proof_data: data })
}

/// The tail of a slice from a position.
fn b_tail<'a>(b: &'a [u8], pos: usize) -> (r: &'a [u8])
    requires
        pos <= b@.len(),
    ensures
        r@ == b@.subrange(pos as int, b@.len() as int),
{
    slice_subrange(b, pos, b.len())
}

// ---------------------------------------------------------------------------
// Round trip: decoding an encoded envelope gives back the envelope.
// ---------------------------------------------------------------------------

/// A 64-bit field parses back to the value whose encoding stands at `pos`.
proof fn lemma_parse_u64_at(b: Seq<u8>, pos: int, x: u64)
    requires
        0 <= pos,
        pos + 8 <= b.len(),
        b.subrange(pos, pos + 8) == enc_u64(x),
    ensures
        sp_u64(b, pos) == Ok::<(u64, int), DecodeError>((x, pos + 8)),
{
    lemma_auto_spec_u64_to_from_le_bytes();
}

/// A 32-bit field parses back to the value whose encoding stands at `pos`.
proof fn lemma_parse_u32_at(b: Seq<u8>, pos: int, x: u32)
    requires
        0 <= pos,
        pos + 4 <= b.len(),
        b.subrange(pos, pos + 4) == enc_u32(x),
    ensures
        sp_u32(b, pos) == Ok::<(u32, int), DecodeError>((x, pos + 4)),
{
    lemma_auto_spec_u32_to_from_le_bytes();
    assert(spec_u32_to_le_bytes(x).len() == 4);
    assert(spec_u32_from_le_bytes(spec_u32_to_le_bytes(x)) == x);
}

/// A length-prefixed field parses back to the bytes whose encoding stands at
/// `pos`.
proof fn lemma_parse_lenbytes_at(b: Seq<u8>, pos: int, s: Seq<u8>)
    requires
        0 <= pos,
        s.len() <= u64::MAX,
        pos + 8 + s.len() <= b.len(),
        b.subrange(pos, pos + 8 + s.len()) == enc_lenbytes(s),
    ensures
        sp_lenbytes(b, pos) == Ok::<(Seq<u8>, int), DecodeError>((s, pos + 8 + s.len())),
{
    lemma_auto_spec_u64_to_from_le_bytes();
    let n = s.len() as u64;
    assert(spec_u64_to_le_bytes(n).len() == 8);
    assert(b.subrange(pos, pos + 8) =~= b.subrange(pos, pos + 8 + s.len()).subrange(0, 8));
    assert(enc_lenbytes(s).subrange(0, 8) =~= enc_u64(n));
    lemma_parse_u64_at(b, pos, n);
    assert(n as int == s.len());
    assert(b.subrange(pos + 8, pos + 8 + s.len()) =~= b.subrange(pos, pos + 8 + s.len()).subrange(
        8,
        8 + s.len() as int,
    ));
    assert(enc_lenbytes(s).subrange(8, 8 + s.len() as int) =~= s);
}

/// Law: envelope round trip. Decoding the encoding of any well-formed
/// envelope succeeds and yields that envelope.
pub proof fn lemma_envelope_round_trip(e: ZkProofView)
    requires
        e.wf(),
    ensures
        spec_decode_envelope(spec_encode_envelope(e)) == Ok::<ZkProofView, DecodeError>(e),
{
    lemma_auto_spec_u64_to_from_le_bytes();
    lemma_auto_spec_u32_to_from_le_bytes();
    let idb = encode_utf8(e.identifier);
    let a = enc_lenbytes(idb);
    let kb = enc_proof_kind(e.proof_kind);
    let db = enc_proof_data(e.proof_data);
    let b = spec_encode_envelope(e);
    assert(b == a + kb + db);
    let la = 8 + idb.len() as int;
    assert(a.len() == la);

    // The identifier field.
    assert(b.subrange(0, la) =~= a);
    lemma_parse_lenbytes_at(b, 0, idb);
    vstd::utf8::encode_utf8_valid_utf8(e.identifier);
    vstd::utf8::encode_utf8_decode_utf8(e.identifier);

    // The proof kind.
    let p1 = la + kb.len() as int;
    match e.proof_kind {
        ProofKind::ExecutionProof(v) => {
            assert(kb == enc_u32(0) + enc_u64(v));
            assert(b.subrange(la, la + 4) =~= enc_u32(0));
            lemma_parse_u32_at(b, la, 0);
            assert(b.subrange(la + 4, la + 12) =~= enc_u64(v));
            lemma_parse_u64_at(b, la + 4, v);
            assert(sp_proof_kind(b, la) == Ok::<(ProofKind, int), DecodeError>(
                (e.proof_kind, p1),
            ));
        },
        ProofKind::SolanaConsensusProof => {
            assert(b.subrange(la, la + 4) =~= enc_u32(1));
            lemma_parse_u32_at(b, la, 1);
            assert(sp_proof_kind(b, la) == Ok::<(ProofKind, int), DecodeError>(
                (e.proof_kind, p1),
            ));
        },
        ProofKind::Unknown(t) => {
            assert(t >= 2);
            assert(b.subrange(la, la + 4) =~= enc_u32(t));
            lemma_parse_u32_at(b, la, t);
            assert(sp_proof_kind(b, la) == Ok::<(ProofKind, int), DecodeError>(
                (e.proof_kind, p1),
            ));
        },
    }

    // The proof payload, ending exactly at the end of the input.
    match e.proof_data {
        ProofDataView::SP1(p) => {
            assert(db == enc_u32(0) + enc_u64(p.version) + enc_lenbytes(p.proof) + enc_lenbytes(
                p.public_value,
            ) + p.verification_key);
            let q1 = p1 + 4;
            let q2 = q1 + 8;
            let q3 = q2 + 8 + p.proof.len() as int;
            let q4 = q3 + 8 + p.public_value.len() as int;
            assert(b.len() == q4 + 32);
            assert(b.subrange(p1, q1) =~= enc_u32(0));
            lemma_parse_u32_at(b, p1, 0);
            assert(b.subrange(q1, q2) =~= enc_u64(p.version));
            lemma_parse_u64_at(b, q1, p.version);
            assert(b.subrange(q2, q3) =~= enc_lenbytes(p.proof));
            lemma_parse_lenbytes_at(b, q2, p.proof);
            assert(b.subrange(q3, q4) =~= enc_lenbytes(p.public_value));
            lemma_parse_lenbytes_at(b, q3, p.public_value);
            assert(b.subrange(q4, q4 + 32) =~= p.verification_key);
            assert(sp_proof_data(b, p1) matches Ok((d, p2)) && d =~= e.proof_data && p2
                == b.len());
        },
        ProofDataView::Unknown(t, payload) => {
            assert(t >= 1);
            assert(b.subrange(p1, p1 + 4) =~= enc_u32(t));
            lemma_parse_u32_at(b, p1, t);
            assert(b.subrange(p1 + 4, b.len() as int) =~= payload);
            assert(sp_proof_data(b, p1) matches Ok((d, p2)) && d =~= e.proof_data && p2
                == b.len());
        },
    }

    assert(spec_decode_envelope(b) matches Ok(r) && r =~= e);
}

/// Law: a structurally truncated envelope is rejected. For an envelope of the
/// SP1 family (whose wire form has a definite end), decoding any strict
/// prefix of its encoding fails with `Truncated`.
pub proof fn lemma_truncated_envelope_fails(e: ZkProofView, k: int)
    requires
        e.wf(),
        e.proof_data is SP1,
        0 <= k < spec_encode_envelope(e).len(),
    ensures
        spec_decode_envelope(spec_encode_envelope(e).take(k)) == Err::<ZkProofView, DecodeError>(
            DecodeError::Truncated,
        ),
{
    lemma_auto_spec_u64_to_from_le_bytes();
    lemma_auto_spec_u32_to_from_le_bytes();
    let idb = encode_utf8(e.identifier);
    let b = spec_encode_envelope(e);
    let t = b.take(k);
    let la = 8 + idb.len() as int;
    let p = e.proof_data->SP1_0;
    assert(b.subrange(0, la) =~= enc_lenbytes(idb));

    // The identifier field.
    if k < 8 {
        assert(sp_u64(t, 0) == Err::<(u64, int), DecodeError>(DecodeError::Truncated));
        return ;
    }
    assert(t.subrange(0, 8) =~= enc_u64(idb.len() as u64));
    lemma_parse_u64_at(t, 0, idb.len() as u64);
    if k < la {
        assert(sp_take(t, 8, idb.len() as int) == Err::<(Seq<u8>, int), DecodeError>(
            DecodeError::Truncated,
        ));
        return ;
    }
    assert(t.subrange(0, la) =~= enc_lenbytes(idb));
    lemma_parse_lenbytes_at(t, 0, idb);
    vstd::utf8::encode_utf8_valid_utf8(e.identifier);

    // The proof kind.
    let p1 = la + enc_proof_kind(e.proof_kind).len() as int;
    match e.proof_kind {
        ProofKind::ExecutionProof(v) => {
            if k < la + 4 {
                assert(sp_u32(t, la) == Err::<(u32, int), DecodeError>(DecodeError::Truncated));
                return ;
            }
            assert(t.subrange(la, la + 4) =~= enc_u32(0));
            lemma_parse_u32_at(t, la, 0);
            if k < la + 12 {
                assert(sp_u64(t, la + 4) == Err::<(u64, int), DecodeError>(
                    DecodeError::Truncated,
                ));
                return ;
            }
            assert(t.subrange(la + 4, la + 12) =~= enc_u64(v));
            lemma_parse_u64_at(t, la + 4, v);
            assert(sp_proof_kind(t, la) == Ok::<(ProofKind, int), DecodeError>(
                (e.proof_kind, p1),
            ));
        },
        ProofKind::SolanaConsensusProof => {
            if k < la + 4 {
                assert(sp_u32(t, la) == Err::<(u32, int), DecodeError>(DecodeError::Truncated));
                return ;
            }
            assert(t.subrange(la, la + 4) =~= enc_u32(1));
            lemma_parse_u32_at(t, la, 1);
            assert(sp_proof_kind(t, la) == Ok::<(ProofKind, int), DecodeError>(
                (e.proof_kind, p1),
            ));
        },
        ProofKind::Unknown(tag) => {
            if k < la + 4 {
                assert(sp_u32(t, la) == Err::<(u32, int), DecodeError>(DecodeError::Truncated));
                return ;
            }
            assert(t.subrange(la, la + 4) =~= enc_u32(tag));
            lemma_parse_u32_at(t, la, tag);
            assert(sp_proof_kind(t, la) == Ok::<(ProofKind, int), DecodeError>(
                (e.proof_kind, p1),
            ));
        },
    }

    // The SP1 payload; the cut falls in one of its fields.
    let q1 = p1 + 4;
    let q2 = q1 + 8;
    let q3 = q2 + 8 + p.proof.len() as int;
    let q4 = q3 + 8 + p.public_value.len() as int;
    assert(b.len() == q4 + 32);
    if k < q1 {
        assert(sp_u32(t, p1) == Err::<(u32, int), DecodeError>(DecodeError::Truncated));
        return ;
    }
    assert(t.subrange(p1, q1) =~= enc_u32(0));
    lemma_parse_u32_at(t, p1, 0);
    if k < q2 {
        assert(sp_u64(t, q1) == Err::<(u64, int), DecodeError>(DecodeError::Truncated));
        return ;
    }
    assert(t.subrange(q1, q2) =~= enc_u64(p.version));
    lemma_parse_u64_at(t, q1, p.version);
    if k < q2 + 8 {
        assert(sp_u64(t, q2) == Err::<(u64, int), DecodeError>(DecodeError::Truncated));
        return ;
    }
    assert(t.subrange(q2, q2 + 8) =~= enc_u64(p.proof.len() as u64));
    lemma_parse_u64_at(t, q2, p.proof.len() as u64);
    if k < q3 {
        assert(sp_take(t, q2 + 8, p.proof.len() as int) == Err::<(Seq<u8>, int), DecodeError>(
            DecodeError::Truncated,
        ));
        return ;
    }
    assert(t.subrange(q2, q3) =~= enc_lenbytes(p.proof));
    lemma_parse_lenbytes_at(t, q2, p.proof);
    if k < q3 + 8 {
        assert(sp_u64(t, q3) == Err::<(u64, int), DecodeError>(DecodeError::Truncated));
        return ;
    }
    assert(t.subrange(q3, q3 + 8) =~= enc_u64(p.public_value.len() as u64));
    lemma_parse_u64_at(t, q3, p.public_value.len() as u64);
    if k < q4 {
        assert(sp_take(t, q3 + 8, p.public_value.len() as int) == Err::<
            (Seq<u8>, int),
            DecodeError,
        >(DecodeError::Truncated));
        return ;
    }
    assert(t.subrange(q3, q4) =~= enc_lenbytes(p.public_value));
    lemma_parse_lenbytes_at(t, q3, p.public_value);
    // The verification key cannot be complete: the cut is strictly inside it.
    assert(q4 + 32 > k);
    assert(sp_take(t, q4, 32) == Err::<(Seq<u8>, int), DecodeError>(DecodeError::Truncated));
}

// ---------------------------------------------------------------------------
// The public-commitments codec: the fixed binary schema of the `public_value`
// payload of a consensus proof.
// ---------------------------------------------------------------------------

/// One account's wire bytes, field by field in declaration order.
pub open spec fn enc_account(a: AccountStateCommitmentView) -> Seq<u8> {
    a.account_pubkey + enc_u64(a.last_change_slot) + a.account_data_hash + enc_u64(a.lamports)
        + a.owner + enc_bool(a.executable) + enc_u64(a.rent_epoch) + enc_lenbytes(a.data)
}

/// The wire length of one account.
pub open spec fn enc_account_len(a: AccountStateCommitmentView) -> int {
    129 + a.data.len() as int
}

/// The accounts' wire bytes, in sequence order.
pub open spec fn enc_accounts(s: Seq<AccountStateCommitmentView>) -> Seq<u8>
    decreases s.len(),
{
    if s.len() == 0 {
        Seq::empty()
    } else {
        enc_account(s[0]) + enc_accounts(s.drop_first())
    }
}

/// Appending one account appends its wire bytes.
pub proof fn lemma_enc_accounts_snoc(s: Seq<AccountStateCommitmentView>, i: int)
    requires
        0 <= i < s.len(),
    ensures
        enc_accounts(s.take(i + 1)) == enc_accounts(s.take(i)) + enc_account(s[i]),
    decreases i,
{
    let t1 = s.take(i + 1);
    let t0 = s.take(i);
    if i == 0 {
        assert(t1.drop_first() =~= Seq::empty());
        assert(t0 =~= Seq::<AccountStateCommitmentView>::empty());
        assert(enc_accounts(t1) =~= enc_accounts(t0) + enc_account(s[0]));
    } else {
        lemma_enc_accounts_snoc(s.drop_first(), i - 1);
        assert(t1.drop_first() =~= s.drop_first().take(i));
        assert(t0.drop_first() =~= s.drop_first().take(i - 1));
        assert(s.drop_first()[i - 1] == s[i]);
        assert(enc_accounts(t1) == enc_account(s[0]) + enc_accounts(s.drop_first().take(i)));
        assert(enc_accounts(t0) == enc_account(s[0]) + enc_accounts(s.drop_first().take(i - 1)));
        assert(enc_account(s[0]) + (enc_accounts(s.drop_first().take(i - 1)) + enc_account(s[i]))
            =~= (enc_account(s[0]) + enc_accounts(s.drop_first().take(i - 1))) + enc_account(
            s[i],
        ));
    }
}

/// The whole public commitment: fixed-width fields, a 64-bit account count,
/// the accounts, and the validation flag.
pub open spec fn spec_encode_public_commitments(c: PublicCommitmentsView) -> Seq<u8> {
    enc_u64(c.start_slot) + enc_u64(c.end_slot) + enc_u64(c.epoch) + c.original_bank_hash
        + c.last_bank_hash + c.account_data_hash + c.hash_root_valset + enc_u64(
        c.total_active_stake,
    ) + enc_u32(c.validator_count) + enc_u64(c.monitored_accounts_state.len() as u64)
        + enc_accounts(c.monitored_accounts_state) + enc_bool(c.validations_passed)
}

pub open spec fn sp_account(b: Seq<u8>, pos: int) -> Result<
    (AccountStateCommitmentView, int),
    DecodeError,
> {
    match sp_take(b, pos, 32) {
        Ok((pk, p1)) => match sp_u64(b, p1) {
            Ok((slot, p2)) => match sp_take(b, p2, 32) {
                Ok((hash, p3)) => match sp_u64(b, p3) {
                    Ok((lamports, p4)) => match sp_take(b, p4, 32) {
                        Ok((owner, p5)) => match sp_bool(b, p5) {
                            Ok((executable, p6)) => match sp_u64(b, p6) {
                                Ok((rent_epoch, p7)) => match sp_lenbytes(b, p7) {
                                    Ok((data, p8)) => Ok(
                                        (
                                            AccountStateCommitmentView {
                                                account_pubkey: pk,
                                                last_change_slot: slot,
                                                account_data_hash: hash,
                                                lamports,
                                                owner,
                                                executable,
                                                rent_epoch,
                                                data,
                                            },
                                            p8,
                                        ),
                                    ),
                                    Err(e) => Err(e),
                                },
                                Err(e) => Err(e),
                            },
                            Err(e) => Err(e),
                        },
                        Err(e) => Err(e),
                    },
                    Err(e) => Err(e),
                },
                Err(e) => Err(e),
            },
            Err(e) => Err(e),
        },
        Err(e) => Err(e),
    }
}

pub open spec fn sp_accounts(b: Seq<u8>, pos: int, n: nat) -> Result<
    (Seq<AccountStateCommitmentView>, int),
    DecodeError,
>
    decreases n,
{
    if n == 0 {
        Ok((Seq::empty(), pos))
    } else {
        match sp_account(b, pos) {
            Ok((a, p)) => match sp_accounts(b, p, (n - 1) as nat) {
                Ok((s, p2)) => Ok((seq![a] + s, p2)),
                Err(e) => Err(e),
            },
            Err(e) => Err(e),
        }
    }
}

/// What decoding a public-commitments payload yields. The input must be
/// exactly one value, with nothing after it.
pub open spec fn spec_decode_public_commitments(b: Seq<u8>) -> Result<
    PublicCommitmentsView,
    DecodeError,
> {
    match sp_u64(b, 0) {
        Ok((start_slot, p1)) => match sp_u64(b, p1) {
            Ok((end_slot, p2)) => match sp_u64(b, p2) {
                Ok((epoch, p3)) => match sp_take(b, p3, 32) {
                    Ok((obh, p4)) => match sp_take(b, p4, 32) {
                        Ok((lbh, p5)) => match sp_take(b, p5, 32) {
                            Ok((adh, p6)) => match sp_take(b, p6, 32) {
                                Ok((hrv, p7)) => match sp_u64(b, p7) {
                                    Ok((stake, p8)) => match sp_u32(b, p8) {
                                        Ok((vc, p9)) => match sp_u64(b, p9) {
                                            Ok((n, p10)) => match sp_accounts(b, p10, n as nat) {
                                                Ok((accounts, p11)) => match sp_bool(b, p11) {
                                                    Ok((vp, p12)) => if p12 == b.len() {
                                                        Ok(
                                                            PublicCommitmentsView {
                                                                start_slot,
                                                                end_slot,
                                                                epoch,
                                                                original_bank_hash: obh,
                                                                last_bank_hash: lbh,
                                                                account_data_hash: adh,
                                                                hash_root_valset: hrv,
                                                                total_active_stake: stake,
                                                                validator_count: vc,
                                                                monitored_accounts_state: accounts,
                                                                validations_passed: vp,
                                                            },
                                                        )
                                                    } else {
                                                        Err(DecodeError::TrailingBytes)
                                                    },
                                                    Err(e) => Err(e),
                                                },
                                                Err(e) => Err(e),
                                            },
                                            Err(e) => Err(e),
                                        },
                                        Err(e) => Err(e),
                                    },
                                    Err(e) => Err(e),
                                },
                                Err(e) => Err(e),
                            },
                            Err(e) => Err(e),
                        },
                        Err(e) => Err(e),
                    },
                    Err(e) => Err(e),
                },
                Err(e) => Err(e),
            },
            Err(e) => Err(e),
        },
        Err(e) => Err(e),
    }
}

fn push_bool(out: &mut Vec<u8>, v: bool)
    ensures
        final(out)@ == old(out)@ + enc_bool(v),
{
    out.push(if v { 1 } else { 0 });
    proof {
        assert(out@ =~= old(out)@ + enc_bool(v));
    }
}

/// Encode one account into the output.
fn push_account(out: &mut Vec<u8>, a: &AccountStateCommitment)
    ensures
        final(out)@ == old(out)@ + enc_account(a@),
{
    push_bytes(out, a.account_pubkey.as_slice());
    push_u64(out, a.last_change_slot);
    push_bytes(out, a.account_data_hash.as_slice());
    push_u64(out, a.lamports);
    push_bytes(out, a.owner.as_slice());
    push_bool(out, a.executable);
    push_u64(out, a.rent_epoch);
    push_lenbytes(out, a.data.as_slice());
    proof {
        assert(out@ =~= old(out)@ + enc_account(a@));
    }
}

/// Encode a public commitment into its wire bytes.
pub fn encode_public_commitments(c: &PublicCommitments) -> (r: Vec<u8>)
    ensures
        r@ == spec_encode_public_commitments(c@),
{
    let mut out: Vec<u8> = Vec::new();
    push_u64(&mut out, c.start_slot);
    push_u64(&mut out, c.end_slot);
    push_u64(&mut out, c.epoch);
    push_bytes(&mut out, c.original_bank_hash.as_slice());
    push_bytes(&mut out, c.last_bank_hash.as_slice());
    push_bytes(&mut out, c.account_data_hash.as_slice());
    push_bytes(&mut out, c.hash_root_valset.as_slice());
    push_u64(&mut out, c.total_active_stake);
    push_u32(&mut out, c.validator_count);
    push_u64(&mut out, c.monitored_accounts_state.len() as u64);
    let ghost views = views_of_accounts(c.monitored_accounts_state@);
    let ghost prefix = out@;
    let n = c.monitored_accounts_state.len();
    let mut i: usize = 0;
    proof {
        assert(views.take(0) =~= Seq::empty());
        assert(out@ =~= prefix + enc_accounts(views.take(0)));
    }
    while i < n
        invariant
            i <= n,
            n == c.monitored_accounts_state@.len(),
            views == views_of_accounts(c.monitored_accounts_state@),
            views.len() == n,
            out@ == prefix + enc_accounts(views.take(i as int)),
        decreases n - i,
    {
        push_account(&mut out, &c.monitored_accounts_state[i]);
        proof {
            lemma_enc_accounts_snoc(views, i as int);
            assert(views[i as int] == c.monitored_accounts_state@[i as int]@);
            assert(out@ =~= prefix + enc_accounts(views.take(i + 1)));
        }
        i += 1;
    }
    proof {
        assert(views.take(n as int) =~= views);
    }
    push_bool(&mut out, c.validations_passed);
    proof {
        assert(out@ =~= spec_encode_public_commitments(c@));
    }
    out
}

pub(crate) open spec fn res_bool_view(r: Result<(bool, usize), DecodeError>) -> Result<
    (bool, int),
    DecodeError,
> {
    match r {
        Ok((v, p)) => Ok((v, p as int)),
        Err(e) => Err(e),
    }
}

pub(crate) fn read_bool(b: &[u8], pos: usize) -> (r: Result<(bool, usize), DecodeError>)
    ensures
        res_bool_view(r) == sp_bool(b@, pos as int),
        r matches Ok((v, p)) ==> pos < p <= b@.len(),
{
    if pos >= b.len() {
        return Err(DecodeError::Truncated);
    }
    let byte = *vstd::slice::slice_index_get(b, pos);
    proof {
        assert(b@.subrange(pos as int, pos as int + 1)[0] == b@[pos as int]);
    }
    if byte == 0 {
        Ok((false, pos + 1))
    } else if byte == 1 {
        Ok((true, pos + 1))
    } else {
        Err(DecodeError::InvalidBool)
    }
}

pub(crate) open spec fn res_account_view(
    r: Result<(AccountStateCommitment, usize), DecodeError>,
) -> Result<(AccountStateCommitmentView, int), DecodeError> {
    match r {
        Ok((a, p)) => Ok((a@, p as int)),
        Err(e) => Err(e),
    }
}

/// Decode one account.
fn read_account(b: &[u8], pos: usize) -> (r: Result<(AccountStateCommitment, usize), DecodeError>)
    ensures
        res_account_view(r) == sp_account(b@, pos as int),
        r matches Ok((a, p)) ==> pos < p <= b@.len(),
{
    let (pk, p1) = match read_exact(b, pos, 32) {
        Ok(t) => t,
        Err(e) => {
            return Err(e);
        },
    };
    let (last_change_slot, p2) = match read_u64(b, p1) {
        Ok(t) => t,
        Err(e) => {
            return Err(e);
        },
    };
    let (hash, p3) = match read_exact(b, p2, 32) {
        Ok(t) => t,
        Err(e) => {
            return Err(e);
        },
    };
    let (lamports, p4) = match read_u64(b, p3) {
        Ok(t) => t,
        Err(e) => {
            return Err(e);
        },
    };
    let (owner, p5) = match read_exact(b, p4, 32) {
        Ok(t) => t,
        Err(e) => {
            return Err(e);
        },
    };
    let (executable, p6) = match read_bool(b, p5) {
        Ok(t) => t,
        Err(e) => {
            return Err(e);
        },
    };
    let (rent_epoch, p7) = match read_u64(b, p6) {
        Ok(t) => t,
        Err(e) => {
            return Err(e);
        },
    };
    let (data, p8) = match read_lenbytes(b, p7) {
        Ok(t) => t,
        Err(e) => {
            return Err(e);
        },
    };
    let a = AccountStateCommitment {
        account_pubkey: crate::utils::to_bytes32(pk.as_slice()),
        last_change_slot,
        account_data_hash: crate::utils::to_bytes32(hash.as_slice()),
        lamports,
        owner: crate::utils::to_bytes32(owner.as_slice()),
        executable,
        rent_epoch,
        data,
    };
    proof {
        assert(sp_account(b@, pos as int) matches Ok((av, p)) && av =~= a@ && p == p8 as int);
    }
    Ok((a, p8))
}

/// How a partial result continues an accounts parse.
pub(crate) open spec fn sp_accounts_cont(
    prefix: Seq<AccountStateCommitmentView>,
    r: Result<(Seq<AccountStateCommitmentView>, int), DecodeError>,
) -> Result<(Seq<AccountStateCommitmentView>, int), DecodeError> {
    match r {
        Ok((s, p)) => Ok((prefix + s, p)),
        Err(e) => Err(e),
    }
}

/// Decode a public commitment from its wire bytes. Succeeds exactly when the
/// specification decoder does, with the same value or the same error.
#[verifier::loop_isolation(false)]
pub fn decode_public_commitments(bytes: &[u8]) -> (r: Result<PublicCommitments, DecodeError>)
    ensures
        r matches Ok(c) ==> spec_decode_public_commitments(bytes@) == Ok::<
            PublicCommitmentsView,
            DecodeError,
        >(c@),
        r matches Err(e) ==> spec_decode_public_commitments(bytes@) == Err::<
            PublicCommitmentsView,
            DecodeError,
        >(e),
{
    let (start_slot, p1) = match read_u64(bytes, 0) {
        Ok(t) => t,
        Err(e) => {
            return Err(e);
        },
    };
    let (end_slot, p2) = match read_u64(bytes, p1) {
        Ok(t) => t,
        Err(e) => {
            return Err(e);
        },
    };
    let (epoch, p3) = match read_u64(bytes, p2) {
        Ok(t) => t,
        Err(e) => {
            return Err(e);
        },
    };
    let (obh, p4) = match read_exact(bytes, p3, 32) {
        Ok(t) => t,
        Err(e) => {
            return Err(e);
        },
    };
    let (lbh, p5) = match read_exact(bytes, p4, 32) {
        Ok(t) => t,
        Err(e) => {
            return Err(e);
        },
    };
    let (adh, p6) = match read_exact(bytes, p5, 32) {
        Ok(t) => t,
        Err(e) => {
            return Err(e);
        },
    };
    let (hrv, p7) = match read_exact(bytes, p6, 32) {
        Ok(t) => t,
        Err(e) => {
            return Err(e);
        },
    };
    let (total_active_stake, p8) = match read_u64(bytes, p7) {
        Ok(t) => t,
        Err(e) => {
            return Err(e);
        },
    };
    let (validator_count, p9) = match read_u32(bytes, p8) {
        Ok(t) => t,
        Err(e) => {
            return Err(e);
        },
    };
    let (n, p10) = match read_u64(bytes, p9) {
        Ok(t) => t,
        Err(e) => {
            return Err(e);
        },
    };
    let mut accounts: Vec<AccountStateCommitment> = Vec::new();
    let mut pos: usize = p10;
    let mut i: u64 = 0;
    proof {
        assert(views_of_accounts(accounts@) =~= Seq::<AccountStateCommitmentView>::empty());
        assert(sp_accounts_cont(
            views_of_accounts(accounts@),
            sp_accounts(bytes@, pos as int, n as nat),
        ) == sp_accounts(bytes@, p10 as int, n as nat));
    }
    while i < n
        invariant
            i <= n,
            pos <= bytes@.len(),
            sp_accounts(bytes@, p10 as int, n as nat) == sp_accounts_cont(
                views_of_accounts(accounts@),
                sp_accounts(bytes@, pos as int, (n - i) as nat),
            ),
        decreases n - i,
    {
        let (a, p) = match read_account(bytes, pos) {
            Ok(t) => t,
            Err(e) => {
                proof {
                    assert(sp_accounts(bytes@, pos as int, (n - i) as nat)
                        == Err::<(Seq<AccountStateCommitmentView>, int), DecodeError>(e));
                }
                return Err(e);
            },
        };
        proof {
            let k = (n - i) as nat;
            let rest = sp_accounts(bytes@, p as int, (k - 1) as nat);
            assert(sp_accounts(bytes@, pos as int, k) == sp_accounts_cont(seq![a@], rest));
            let old_views = views_of_accounts(accounts@);
            assert(views_of_accounts(accounts@.push(a)) =~= old_views.push(a@));
            match rest {
                Ok((s, q)) => {
                    assert(old_views + (seq![a@] + s) =~= old_views.push(a@) + s);
                },
                Err(_) => {},
            }
        }
        accounts.push(a);
        pos = p;
        i += 1;
    }
    proof {
        assert(sp_accounts(bytes@, pos as int, 0) == Ok::<
            (Seq<AccountStateCommitmentView>, int),
            DecodeError,
        >((Seq::empty(), pos as int)));
        assert(views_of_accounts(accounts@) + Seq::<AccountStateCommitmentView>::empty()
            =~= views_of_accounts(accounts@));
        assert(sp_accounts(bytes@, p10 as int, n as nat) == Ok::<
            (Seq<AccountStateCommitmentView>, int),
            DecodeError,
        >((views_of_accounts(accounts@), pos as int)));
    }
    let (validations_passed, p12) = match read_bool(bytes, pos) {
        Ok(t) => t,
        Err(e) => {
            return Err(e);
        },
    };
    if p12 != bytes.len() {
        return Err(DecodeError::TrailingBytes);
    }
    let c = PublicCommitments {
        start_slot,
        end_slot,
        epoch,
        original_bank_hash: crate::utils::to_bytes32(obh.as_slice()),
        last_bank_hash: crate::utils::to_bytes32(lbh.as_slice()),
        account_data_hash: crate::utils::to_bytes32(adh.as_slice()),
        hash_root_valset: crate::utils::to_bytes32(hrv.as_slice()),
        total_active_stake,
        validator_count,
        monitored_accounts_state: accounts,
        validations_passed,
    };
    proof {
        assert(spec_decode_public_commitments(bytes@) matches Ok(v) && v =~= c@);
    }
    Ok(c)
}

/// A boolean field parses back to the value whose encoding stands at `pos`.
proof fn lemma_parse_bool_at(b: Seq<u8>, pos: int, v: bool)
    requires
        0 <= pos,
        pos + 1 <= b.len(),
        b.subrange(pos, pos + 1) == enc_bool(v),
    ensures
        sp_bool(b, pos) == Ok::<(bool, int), DecodeError>((v, pos + 1)),
{
    assert(b.subrange(pos, pos + 1)[0] == enc_bool(v)[0]);
}

/// An account parses back from its encoding.
proof fn lemma_parse_account_at(b: Seq<u8>, pos: int, a: AccountStateCommitmentView)
    requires
        a.wf(),
        0 <= pos,
        pos + enc_account_len(a) <= b.len(),
        b.subrange(pos, pos + enc_account_len(a)) == enc_account(a),
    ensures
        sp_account(b, pos) == Ok::<(AccountStateCommitmentView, int), DecodeError>(
            (a, pos + enc_account_len(a)),
        ),
{
    lemma_auto_spec_u64_to_from_le_bytes();
    let q1 = pos + 32;
    let q2 = q1 + 8;
    let q3 = q2 + 32;
    let q4 = q3 + 8;
    let q5 = q4 + 32;
    let q6 = q5 + 1;
    let q7 = q6 + 8;
    let q8 = q7 + 8 + a.data.len() as int;
    let la = enc_account_len(a);
    let ea = enc_account(a);
    assert(enc_u64(a.last_change_slot).len() == 8);
    assert(enc_u64(a.lamports).len() == 8);
    assert(enc_u64(a.rent_epoch).len() == 8);
    assert(enc_u64(a.data.len() as u64).len() == 8);
    assert(b.subrange(pos, q1) =~= ea.subrange(0, 32));
    assert(ea.subrange(0, 32) =~= a.account_pubkey);
    assert(b.subrange(q1, q2) =~= ea.subrange(32, 40));
    assert(ea.subrange(32, 40) =~= enc_u64(a.last_change_slot));
    lemma_parse_u64_at(b, q1, a.last_change_slot);
    assert(b.subrange(q2, q3) =~= ea.subrange(40, 72));
    assert(ea.subrange(40, 72) =~= a.account_data_hash);
    assert(b.subrange(q3, q4) =~= ea.subrange(72, 80));
    assert(ea.subrange(72, 80) =~= enc_u64(a.lamports));
    lemma_parse_u64_at(b, q3, a.lamports);
    assert(b.subrange(q4, q5) =~= ea.subrange(80, 112));
    assert(ea.subrange(80, 112) =~= a.owner);
    assert(b.subrange(q5, q6) =~= ea.subrange(112, 113));
    assert(ea.subrange(112, 113) =~= enc_bool(a.executable));
    lemma_parse_bool_at(b, q5, a.executable);
    assert(b.subrange(q6, q7) =~= ea.subrange(113, 121));
    assert(ea.subrange(113, 121) =~= enc_u64(a.rent_epoch));
    lemma_parse_u64_at(b, q6, a.rent_epoch);
    assert(b.subrange(q7, q8) =~= ea.subrange(121, la));
    assert(ea.subrange(121, la) =~= enc_lenbytes(a.data));
    lemma_parse_lenbytes_at(b, q7, a.data);
    assert(sp_account(b, pos) matches Ok((av, p)) && av =~= a && p == q8);
}

/// A list of accounts parses back from its encoding.
proof fn lemma_parse_accounts_at(b: Seq<u8>, pos: int, s: Seq<AccountStateCommitmentView>)
    requires
        forall|k: int| 0 <= k < s.len() ==> (#[trigger] s[k]).wf(),
        0 <= pos,
        pos + enc_accounts(s).len() <= b.len(),
        b.subrange(pos, pos + enc_accounts(s).len()) == enc_accounts(s),
    ensures
        sp_accounts(b, pos, s.len()) == Ok::<(Seq<AccountStateCommitmentView>, int), DecodeError>(
            (s, pos + enc_accounts(s).len()),
        ),
    decreases s.len(),
{
    if s.len() == 0 {
        assert(sp_accounts(b, pos, 0) == Ok::<(Seq<AccountStateCommitmentView>, int), DecodeError>(
            (Seq::empty(), pos),
        ));
        assert(s =~= Seq::<AccountStateCommitmentView>::empty());
    } else {
        lemma_auto_spec_u64_to_from_le_bytes();
        let a = s[0];
        assert(a.wf());
        let la = enc_account_len(a);
        assert(enc_account(a).len() == la);
        assert(enc_accounts(s) == enc_account(a) + enc_accounts(s.drop_first()));
        assert(b.subrange(pos, pos + la) =~= enc_account(a));
        lemma_parse_account_at(b, pos, a);
        let whole = enc_accounts(s);
        let rest = enc_accounts(s.drop_first());
        assert(b.subrange(pos + la, pos + la + rest.len()) =~= b.subrange(
            pos,
            pos + whole.len(),
        ).subrange(la, whole.len() as int));
        assert(whole.subrange(la, whole.len() as int) =~= rest);
        lemma_parse_accounts_at(b, pos + la, s.drop_first());
        assert(seq![a] + s.drop_first() =~= s);
    }
}

/// Law: public-commitments round trip. Decoding the encoding of any
/// well-formed commitment succeeds and yields that commitment.
pub proof fn lemma_public_commitments_round_trip(c: PublicCommitmentsView)
    requires
        c.wf(),
    ensures
        spec_decode_public_commitments(spec_encode_public_commitments(c)) == Ok::<
            PublicCommitmentsView,
            DecodeError,
        >(c),
{
    lemma_auto_spec_u64_to_from_le_bytes();
    lemma_auto_spec_u32_to_from_le_bytes();
    let b = spec_encode_public_commitments(c);
    let s = c.monitored_accounts_state;
    let p1 = 8int;
    let p2 = 16int;
    let p3 = 24int;
    let p4 = p3 + 32;
    let p5 = p4 + 32;
    let p6 = p5 + 32;
    let p7 = p6 + 32;
    let p8 = p7 + 8;
    let p9 = p8 + 4;
    let p10 = p9 + 8;
    let p11 = p10 + enc_accounts(s).len() as int;
    assert(b.len() == p11 + 1);
    assert(b.subrange(0, p1) =~= enc_u64(c.start_slot));
    lemma_parse_u64_at(b, 0, c.start_slot);
    assert(b.subrange(p1, p2) =~= enc_u64(c.end_slot));
    lemma_parse_u64_at(b, p1, c.end_slot);
    assert(b.subrange(p2, p3) =~= enc_u64(c.epoch));
    lemma_parse_u64_at(b, p2, c.epoch);
    assert(b.subrange(p3, p4) =~= c.original_bank_hash);
    assert(b.subrange(p4, p5) =~= c.last_bank_hash);
    assert(b.subrange(p5, p6) =~= c.account_data_hash);
    assert(b.subrange(p6, p7) =~= c.hash_root_valset);
    assert(b.subrange(p7, p8) =~= enc_u64(c.total_active_stake));
    lemma_parse_u64_at(b, p7, c.total_active_stake);
    assert(b.subrange(p8, p9) =~= enc_u32(c.validator_count));
    lemma_parse_u32_at(b, p8, c.validator_count);
    assert(b.subrange(p9, p10) =~= enc_u64(s.len() as u64));
    lemma_parse_u64_at(b, p9, s.len() as u64);
    assert((s.len() as u64) as nat == s.len());
    assert(b.subrange(p10, p11) =~= enc_accounts(s));
    lemma_parse_accounts_at(b, p10, s);
    assert(b.subrange(p11, p11 + 1) =~= enc_bool(c.validations_passed));
    lemma_parse_bool_at(b, p11, c.validations_passed);
    assert(spec_decode_public_commitments(b) matches Ok(r) && r =~= c);
}

} // verus!
