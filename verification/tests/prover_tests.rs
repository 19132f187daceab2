use solana_stub_prover::codec::encode_public_commitments;
use solana_stub_prover::commitment::build_commitments;
use solana_stub_prover::prover::{
    proof_identifier, ProofMode, ProverError, ProverPhase, ProverSession,
};
use solana_stub_prover::types::{ProofData, ProofKind, ProverInput};
use solana_stub_prover::utils::sha256_from_u64;

fn prover_input(start_slot: u64, end_slot: u64) -> ProverInput {
    ProverInput {
        start_slot,
        end_slot,
        epoch: 0,
        original_bank_hash: sha256_from_u64(start_slot),
        last_bank_hash: sha256_from_u64(end_slot),
        monitored_accounts_state: vec![],
    }
}

#[test]
fn identifier_names_the_slot_range() {
    assert_eq!(proof_identifier(100, 200), "solana-stub-100-200");
    assert_eq!(proof_identifier(0, 1), "solana-stub-0-1");
    assert_eq!(
        proof_identifier(u64::MAX, u64::MAX),
        "solana-stub-18446744073709551615-18446744073709551615"
    );
}

#[test]
fn execute_flow_decodes_the_backend_output() {
    let commitments = build_commitments(prover_input(100, 200)).unwrap();
    let output = encode_public_commitments(&commitments);
    let mut session = ProverSession::new(100, 200);
    session.begin_execute();
    let decoded = session.execution_completed(&output).unwrap();
    assert!(decoded.same_as(&commitments));
    assert!(matches!(session.phase, ProverPhase::Done));
}

#[test]
fn execute_flow_rejects_malformed_output() {
    let mut session = ProverSession::new(100, 200);
    session.begin_execute();
    let r = session.execution_completed(&[1, 2, 3]);
    assert!(matches!(r, Err(ProverError::ExecutionFailed)));
    assert!(matches!(session.phase, ProverPhase::Failed(ProverError::ExecutionFailed)));
}

#[test]
fn execution_backend_fault_is_terminal() {
    let mut session = ProverSession::new(1, 2);
    session.begin_execute();
    session.execution_failed();
    assert!(matches!(session.phase, ProverPhase::Failed(ProverError::ExecutionFailed)));
}

#[test]
fn prove_flow_compressed_publishes_version_one() {
    let mut session = ProverSession::new(100, 200);
    session.begin_prove(ProofMode::Compressed);
    session.setup_completed([7u8; 32]);
    let envelope = session.proving_completed(vec![1, 2, 3], vec![4, 5]);
    assert!(matches!(session.phase, ProverPhase::Done));
    assert_eq!(envelope.identifier, "solana-stub-100-200");
    assert_eq!(envelope.proof_kind, ProofKind::SolanaConsensusProof);
    match envelope.proof_data {
        ProofData::SP1(p) => {
            assert_eq!(p.version, 1);
            assert_eq!(p.proof, vec![1, 2, 3]);
            assert_eq!(p.public_value, vec![4, 5]);
            assert_eq!(p.verification_key, [7u8; 32]);
        }
        _ => panic!("expected the SP1 family"),
    }
}

#[test]
fn prove_flow_groth16_publishes_version_two() {
    let mut session = ProverSession::new(1, 2);
    session.begin_prove(ProofMode::Groth16);
    session.setup_completed([0u8; 32]);
    let envelope = session.proving_completed(vec![], vec![]);
    match envelope.proof_data {
        ProofData::SP1(p) => assert_eq!(p.version, 2),
        _ => panic!("expected the SP1 family"),
    }
}

#[test]
fn setup_fault_is_terminal() {
    let mut session = ProverSession::new(1, 2);
    session.begin_prove(ProofMode::Groth16);
    session.setup_failed();
    assert!(matches!(session.phase, ProverPhase::Failed(ProverError::SetupFailed)));
}

#[test]
fn proving_fault_is_terminal() {
    let mut session = ProverSession::new(1, 2);
    session.begin_prove(ProofMode::Compressed);
    session.setup_completed([0u8; 32]);
    session.proving_failed();
    assert!(matches!(session.phase, ProverPhase::Failed(ProverError::ProvingFailed)));
}
