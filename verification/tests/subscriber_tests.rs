use solana_stub_prover::codec::{encode_envelope, DecodeError};
use solana_stub_prover::subscriber::{
    subscriber_step, ReceiveEvent, SubscriberAction, SubscriberState, ERROR_BACKOFF_MS,
    MAX_CONSECUTIVE_ERRORS,
};
use solana_stub_prover::types::{ProofData, ProofKind, SP1Proof, ZkProof};

fn envelope() -> ZkProof {
    ZkProof {
        identifier: "solana-stub-100-200".to_string(),
        proof_kind: ProofKind::SolanaConsensusProof,
        proof_data: ProofData::SP1(SP1Proof {
            version: 1,
            proof: vec![1, 2, 3],
            public_value: vec![],
            verification_key: [0u8; 32],
        }),
    }
}

#[test]
fn record_is_decoded_and_delivered() {
    let mut s = SubscriberState::new();
    let action = subscriber_step(&mut s, ReceiveEvent::Record(encode_envelope(&envelope())));
    match action {
        SubscriberAction::Deliver(p) => assert!(p.same_as(&envelope())),
        _ => panic!("expected delivery"),
    }
    assert_eq!(s.consecutive_errors, 0);
}

#[test]
fn malformed_record_is_skipped_not_fatal() {
    let mut s = SubscriberState::new();
    let action = subscriber_step(&mut s, ReceiveEvent::Record(vec![1, 2, 3]));
    assert!(matches!(action, SubscriberAction::Skip(DecodeError::Truncated)));
    assert_eq!(s.consecutive_errors, 0);
}

#[test]
fn nine_errors_then_success_resets_counter() {
    let mut s = SubscriberState::new();
    for i in 1..=9u32 {
        let action = subscriber_step(&mut s, ReceiveEvent::TransientError);
        assert!(matches!(action, SubscriberAction::Backoff), "error {} should back off", i);
        assert_eq!(s.consecutive_errors, i);
    }
    let action = subscriber_step(&mut s, ReceiveEvent::Record(encode_envelope(&envelope())));
    assert!(matches!(action, SubscriberAction::Deliver(_)));
    assert_eq!(s.consecutive_errors, 0);
}

#[test]
fn tenth_consecutive_error_is_fatal() {
    let mut s = SubscriberState::new();
    for _ in 0..9 {
        let action = subscriber_step(&mut s, ReceiveEvent::TransientError);
        assert!(matches!(action, SubscriberAction::Backoff));
    }
    let action = subscriber_step(&mut s, ReceiveEvent::TransientError);
    assert!(matches!(action, SubscriberAction::Fatal));
    assert_eq!(s.consecutive_errors, MAX_CONSECUTIVE_ERRORS);
}

#[test]
fn threshold_and_backoff_constants() {
    assert_eq!(MAX_CONSECUTIVE_ERRORS, 10);
    assert_eq!(ERROR_BACKOFF_MS, 1000);
}
