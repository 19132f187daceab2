//! Byte-level utilities shared by the commitment builder and the wire codec:
//! SHA-256 digests, base58/base64 decoding, the epoch formula, and decimal
//! rendering of integers. The calls into outside crates stand behind trusted
//! contracts; everything around them is verified.

use vstd::prelude::*;

verus! {

use vstd::bytes::spec_u64_to_le_bytes;
use vstd::utf8::{valid_utf8, decode_utf8, encode_utf8, is_leading_byte_width_1};
use vstd::utf8::{partial_valid_utf8, partial_valid_utf8_extend_ascii_block};
use vstd::utf8::decode_utf8_encode_utf8;

/// Number of slots in one Solana epoch (mainnet/devnet protocol constant).
pub const SLOTS_PER_EPOCH: u64 = 432000;

/// Epoch number for a slot: floor division by the protocol constant.
pub fn get_epoch_for_slot(slot: u64) -> (epoch: u64)
    ensures
        epoch == slot / SLOTS_PER_EPOCH,
{
    slot / SLOTS_PER_EPOCH
}

/// The SHA-256 digest of a byte sequence. The digest is a function of the
/// input bytes alone; its value is given a name rather than written out.
pub uninterp spec fn sha256_of(data: Seq<u8>) -> Seq<u8>;

/// Relies on sha2::Sha256 (`update` then `finalize`): the result is the
/// 32-byte SHA-256 digest of `data`, a function of `data` alone.
#[verifier::external_body]
pub fn sha256_hash(data: &[u8]) -> (r: [u8; 32])
    ensures
        r@ == sha256_of(data@),
        r@.len() == 32,
{
    let mut hasher = <sha2::Sha256 as sha2::Digest>::new();
    sha2::Digest::update(&mut hasher, data);
    sha2::Digest::finalize(hasher).into()
}

/// SHA-256 digest of the little-endian bytes of a 64-bit value.
pub fn sha256_from_u64(value: u64) -> (r: [u8; 32])
    ensures
        r@ == sha256_of(spec_u64_to_le_bytes(value)),
        r@.len() == 32,
{
    let bytes = vstd::bytes::u64_to_le_bytes(value);
    sha256_hash(bytes.as_slice())
}

/// What base58 decoding yields on a piece of text: `Some` bytes exactly when
/// the text is well-formed base58. A function of the text alone.
pub uninterp spec fn base58_decoded(s: Seq<char>) -> Option<Seq<u8>>;

#[verifier::external_type_specification]
#[verifier::external_body]
pub struct ExBs58DecodeError(bs58::decode::Error);

/// Relies on bs58::decode(..).into_vec(): the result depends on the input
/// characters alone and is `Ok` exactly on well-formed base58 text.
#[verifier::external_body]
pub fn base58_decode(input: &str) -> (r: Result<Vec<u8>, bs58::decode::Error>)
    ensures
        r is Ok <==> base58_decoded(input@) is Some,
        r matches Ok(v) ==> Some(v@) == base58_decoded(input@),
{
    bs58::decode(input).into_vec()
}

/// Relies on the Display impl of bs58::decode::Error for a human-readable
/// message; nothing is claimed of the text.
#[verifier::external_body]
fn base58_error_message(e: &bs58::decode::Error) -> String {
    e.to_string()
}

/// Copy a 32-byte slice into a fixed array.
pub(crate) fn to_bytes32(v: &[u8]) -> (r: [u8; 32])
    requires
        v@.len() == 32,
    ensures
        r@ == v@,
{
    let mut r = [0u8; 32];
    let mut i: usize = 0;
    while i < 32
        invariant
            i <= 32,
            v@.len() == 32,
            r@.len() == 32,
            forall|j: int| 0 <= j < i ==> r@[j] == v@[j],
        decreases 32 - i,
    {
        r[i] = v[i];
        i += 1;
    }
    proof {
        assert(r@ =~= v@);
    }
    r
}

/// Convert a base58 public key to a 32-byte array. Succeeds exactly when the
/// text is well-formed base58 that decodes to 32 bytes.
pub fn base58_to_bytes32(pubkey: &str) -> (r: Result<[u8; 32], String>)
    ensures
        r is Ok <==> (base58_decoded(pubkey@) matches Some(b) && b.len() == 32),
        r matches Ok(a) ==> base58_decoded(pubkey@) == Some(a@),
{
    let bytes = match base58_decode(pubkey) {
        Ok(b) => b,
        Err(e) => {
            return Err(base58_error_message(&e));
        },
    };
    if bytes.len() != 32 {
        return Err("Invalid pubkey length".to_owned());
    }
    Ok(to_bytes32(bytes.as_slice()))
}

/// What standard base64 decoding yields on a piece of text: `Some` bytes
/// exactly when the text is well-formed base64. A function of the text alone.
pub uninterp spec fn base64_decoded(s: Seq<char>) -> Option<Seq<u8>>;

/// Relies on base64's STANDARD engine `decode`: the result depends on the
/// input characters alone and succeeds exactly on well-formed base64 text.
/// The outside error value carries no information this library uses.
#[verifier::external_body]
pub(crate) fn base64_decode(input: &str) -> (r: Option<Vec<u8>>)
    ensures
        r is Some <==> base64_decoded(input@) is Some,
        r matches Some(v) ==> Some(v@) == base64_decoded(input@),
{
    match base64::Engine::decode(&base64::engine::general_purpose::STANDARD, input) {
        Ok(v) => Some(v),
        Err(_) => None,
    }
}

/// Relies on core::str::from_utf8: it succeeds exactly on valid UTF-8 input
/// and returns the decoding of those bytes (`to_owned` only converts).
#[verifier::external_body]
pub(crate) fn bytes_to_string(v: &[u8]) -> (r: Option<String>)
    ensures
        r is Some <==> valid_utf8(v@),
        r matches Some(s) ==> s@ == decode_utf8(v@),
{
    match core::str::from_utf8(v) {
        Ok(s) => Some(s.to_owned()),
        Err(_) => None,
    }
}

/// ASCII bytes of the decimal rendering of a natural number, most significant
/// digit first.
pub open spec fn spec_decimal(n: nat) -> Seq<u8>
    decreases n,
{
    if n < 10 {
        seq![(48 + n) as u8]
    } else {
        spec_decimal(n / 10).push((48 + n % 10) as u8)
    }
}

/// Every byte of a decimal rendering is an ASCII digit.
pub proof fn lemma_spec_decimal_ascii(n: nat)
    ensures
        forall|i: int| 0 <= i < spec_decimal(n).len() ==> 48 <= #[trigger] spec_decimal(n)[i] <= 57,
    decreases n,
{
    if n >= 10 {
        lemma_spec_decimal_ascii(n / 10);
        let s = spec_decimal(n / 10);
        let d = (48 + n % 10) as u8;
        assert(spec_decimal(n) == s.push(d));
        assert forall|i: int| 0 <= i < spec_decimal(n).len() implies 48 <= #[trigger] spec_decimal(
            n,
        )[i] <= 57 by {
            if i < s.len() {
                assert(spec_decimal(n)[i] == s[i]);
            } else {
                assert(spec_decimal(n)[i] == d);
            }
        }
    }
}

/// Append the decimal rendering of `n` to `out`.
pub fn push_decimal(out: &mut Vec<u8>, n: u64)
    ensures
        final(out)@ == old(out)@ + spec_decimal(n as nat),
    decreases n,
{
    if n < 10 {
        out.push(48 + (n as u8));
        proof {
            assert(out@ =~= old(out)@ + spec_decimal(n as nat));
        }
    } else {
        push_decimal(out, n / 10);
        out.push(48 + ((n % 10) as u8));
        proof {
            assert(out@ =~= old(out)@ + spec_decimal(n as nat));
        }
    }
}

/// The character sequence of the decimal rendering of a natural number.
pub open spec fn dec_str(n: nat) -> Seq<char> {
    decode_utf8(spec_decimal(n))
}

/// All-ASCII byte sequences are valid UTF-8.
pub proof fn lemma_ascii_bytes_valid_utf8(b: Seq<u8>)
    requires
        forall|i: int| 0 <= i < b.len() ==> #[trigger] b[i] < 128,
    ensures
        valid_utf8(b),
{
    assert(b.subrange(0, 0) =~= Seq::<u8>::empty());
    assert(valid_utf8(b.subrange(0, 0)));
    assert(partial_valid_utf8(b, 0));
    assert forall|i: int| 0 <= 0 <= i < b.len() <= b.len() implies #[trigger] is_leading_byte_width_1(b[i]) by {
        assert(b[i] < 128);
    }
    partial_valid_utf8_extend_ascii_block(b, 0, b.len() as int);
    assert(b.subrange(0, b.len() as int) =~= b);
}

/// Decimal rendering of a 64-bit value as a string; the string's UTF-8 bytes
/// are exactly the ASCII digits of `n`.
pub fn u64_to_string(n: u64) -> (r: String)
    ensures
        encode_utf8(r@) == spec_decimal(n as nat),
        r@ == dec_str(n as nat),
{
    let mut bytes: Vec<u8> = Vec::new();
    push_decimal(&mut bytes, n);
    proof {
        lemma_spec_decimal_ascii(n as nat);
        assert(bytes@ =~= spec_decimal(n as nat));
        lemma_ascii_bytes_valid_utf8(bytes@);
    }
    match bytes_to_string(bytes.as_slice()) {
        Some(s) => {
            proof {
                decode_utf8_encode_utf8(bytes@);
            }
            s
        },
        None => vstd::pervasive::unreached(),
    }
}

} // verus!
