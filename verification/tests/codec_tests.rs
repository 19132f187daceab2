use solana_stub_prover::codec::{
    decode_envelope, decode_public_commitments, encode_envelope, encode_public_commitments,
    DecodeError,
};
use solana_stub_prover::types::{
    AccountStateCommitment, ProofData, ProofKind, PublicCommitments, SP1Proof, ZkProof,
};
use solana_stub_prover::utils::sha256_hash;

fn sample_proof() -> ZkProof {
    ZkProof {
        identifier: "test-proof-123".to_string(),
        proof_kind: ProofKind::SolanaConsensusProof,
        proof_data: ProofData::SP1(SP1Proof {
            version: 1,
            proof: vec![1, 2, 3, 4, 5],
            public_value: vec![10, 20, 30],
            verification_key: [0u8; 32],
        }),
    }
}

fn sample_commitments() -> PublicCommitments {
    PublicCommitments {
        start_slot: 100,
        end_slot: 200,
        epoch: 0,
        original_bank_hash: [1u8; 32],
        last_bank_hash: [2u8; 32],
        account_data_hash: [3u8; 32],
        hash_root_valset: [0u8; 32],
        total_active_stake: 1000000000,
        validator_count: 100,
        monitored_accounts_state: vec![AccountStateCommitment {
            account_pubkey: [9u8; 32],
            last_change_slot: 200,
            account_data_hash: sha256_hash(b"hello"),
            lamports: 5000,
            owner: [8u8; 32],
            executable: true,
            rent_epoch: 2,
            data: b"hello".to_vec(),
        }],
        validations_passed: true,
    }
}

#[test]
fn envelope_round_trip() {
    let e = sample_proof();
    let bytes = encode_envelope(&e);
    let d = decode_envelope(&bytes).unwrap();
    assert!(d.same_as(&e));
}

#[test]
fn envelope_round_trip_execution_kind() {
    let mut e = sample_proof();
    e.proof_kind = ProofKind::ExecutionProof(42);
    let d = decode_envelope(&encode_envelope(&e)).unwrap();
    assert!(d.same_as(&e));
    assert_eq!(d.proof_kind, ProofKind::ExecutionProof(42));
}

#[test]
fn envelope_round_trip_unknown_family() {
    let mut e = sample_proof();
    e.proof_data = ProofData::Unknown(9, vec![0xDE, 0xAD]);
    let d = decode_envelope(&encode_envelope(&e)).unwrap();
    assert!(d.same_as(&e));
}

#[test]
fn envelope_wire_layout() {
    let e = ZkProof {
        identifier: "ab".to_string(),
        proof_kind: ProofKind::SolanaConsensusProof,
        proof_data: ProofData::SP1(SP1Proof {
            version: 1,
            proof: vec![0xAB],
            public_value: vec![],
            verification_key: [7u8; 32],
        }),
    };
    let bytes = encode_envelope(&e);
    let mut expected: Vec<u8> = Vec::new();
    expected.extend_from_slice(&2u64.to_le_bytes());
    expected.extend_from_slice(b"ab");
    expected.extend_from_slice(&1u32.to_le_bytes());
    expected.extend_from_slice(&0u32.to_le_bytes());
    expected.extend_from_slice(&1u64.to_le_bytes());
    expected.extend_from_slice(&1u64.to_le_bytes());
    expected.push(0xAB);
    expected.extend_from_slice(&0u64.to_le_bytes());
    expected.extend_from_slice(&[7u8; 32]);
    assert_eq!(bytes, expected);
}

#[test]
fn unknown_kind_tag_decodes_into_unknown_variant() {
    // A blob with kind tag 7 (unknown) but otherwise valid structure.
    let mut bytes: Vec<u8> = Vec::new();
    bytes.extend_from_slice(&2u64.to_le_bytes());
    bytes.extend_from_slice(b"ab");
    bytes.extend_from_slice(&7u32.to_le_bytes());
    bytes.extend_from_slice(&0u32.to_le_bytes());
    bytes.extend_from_slice(&1u64.to_le_bytes());
    bytes.extend_from_slice(&0u64.to_le_bytes());
    bytes.extend_from_slice(&0u64.to_le_bytes());
    bytes.extend_from_slice(&[0u8; 32]);
    let d = decode_envelope(&bytes).unwrap();
    assert_eq!(d.proof_kind, ProofKind::Unknown(7));
    assert_eq!(d.identifier, "ab");
}

#[test]
fn unknown_family_tag_keeps_raw_payload() {
    let mut bytes: Vec<u8> = Vec::new();
    bytes.extend_from_slice(&0u64.to_le_bytes());
    bytes.extend_from_slice(&1u32.to_le_bytes());
    bytes.extend_from_slice(&5u32.to_le_bytes());
    bytes.extend_from_slice(&[1, 2, 3]);
    let d = decode_envelope(&bytes).unwrap();
    match d.proof_data {
        ProofData::Unknown(tag, payload) => {
            assert_eq!(tag, 5);
            assert_eq!(payload, vec![1, 2, 3]);
        }
        _ => panic!("expected the unknown-family variant"),
    }
}

#[test]
fn truncated_envelope_fails_with_decode_error() {
    let e = sample_proof();
    let bytes = encode_envelope(&e);
    // Every strict prefix fails as truncated; spot-check a few cuts,
    // including one that cuts the verification key off.
    for cut in [0, 7, 8, 9, bytes.len() - 32, bytes.len() - 1] {
        let r = decode_envelope(&bytes[..cut]);
        assert_eq!(r.unwrap_err(), DecodeError::Truncated, "cut at {}", cut);
    }
}

#[test]
fn trailing_bytes_are_rejected() {
    let e = sample_proof();
    let mut bytes = encode_envelope(&e);
    bytes.push(0);
    assert_eq!(decode_envelope(&bytes).unwrap_err(), DecodeError::TrailingBytes);
}

#[test]
fn invalid_identifier_utf8_is_rejected() {
    let mut bytes: Vec<u8> = Vec::new();
    bytes.extend_from_slice(&1u64.to_le_bytes());
    bytes.push(0xFF);
    bytes.extend_from_slice(&1u32.to_le_bytes());
    bytes.extend_from_slice(&5u32.to_le_bytes());
    assert_eq!(decode_envelope(&bytes).unwrap_err(), DecodeError::InvalidIdentifier);
}

#[test]
fn public_commitments_round_trip() {
    let c = sample_commitments();
    let bytes = encode_public_commitments(&c);
    let d = decode_public_commitments(&bytes).unwrap();
    assert!(d.same_as(&c));
}

#[test]
fn public_commitments_matches_reference_binary_schema() {
    // The fixed binary schema coincides with bincode's little-endian
    // fixed-width encoding of the same value, written here as a tuple.
    let c = sample_commitments();
    let a = &c.monitored_accounts_state[0];
    let expected = bincode::serialize(&(
        c.start_slot,
        c.end_slot,
        c.epoch,
        c.original_bank_hash,
        c.last_bank_hash,
        c.account_data_hash,
        c.hash_root_valset,
        c.total_active_stake,
        c.validator_count,
        vec![(
            a.account_pubkey,
            a.last_change_slot,
            a.account_data_hash,
            a.lamports,
            a.owner,
            a.executable,
            a.rent_epoch,
            a.data.clone(),
        )],
        c.validations_passed,
    ))
    .unwrap();
    assert_eq!(encode_public_commitments(&c), expected);
}

#[test]
fn public_commitments_invalid_bool_is_rejected() {
    let c = sample_commitments();
    let mut bytes = encode_public_commitments(&c);
    let last = bytes.len() - 1;
    bytes[last] = 2;
    assert_eq!(decode_public_commitments(&bytes).unwrap_err(), DecodeError::InvalidBool);
}

#[test]
fn public_commitments_truncated_is_rejected() {
    let c = sample_commitments();
    let bytes = encode_public_commitments(&c);
    let r = decode_public_commitments(&bytes[..bytes.len() - 1]);
    assert_eq!(r.unwrap_err(), DecodeError::Truncated);
}
