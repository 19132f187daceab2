//! End-to-end scenario over a simulated two-partition topic: build, prove,
//! publish keyed by identifier, then consume from the earliest offset and
//! decode back to the original commitment.

use solana_stub_prover::codec::{decode_public_commitments, encode_public_commitments};
use solana_stub_prover::commitment::build_commitments;
use solana_stub_prover::kafka::prepare_publish;
use solana_stub_prover::prover::{ProofMode, ProverSession};
use solana_stub_prover::solana::{account_commitment, prepare_prover_input, AccountInfo};
use solana_stub_prover::subscriber::{subscriber_step, ReceiveEvent, SubscriberAction, SubscriberState};
use solana_stub_prover::types::{ProofData, ZkProof};

const PUBKEY: &str = "So11111111111111111111111111111111111111112";
const OWNER: &str = "11111111111111111111111111111111";

/// A minimal in-memory stand-in for a two-partition topic: records are
/// appended to the partition their key routes to and read back in order.
struct TwoPartitionTopic {
    partitions: [Vec<(String, Vec<u8>)>; 2],
}

impl TwoPartitionTopic {
    fn new() -> Self {
        TwoPartitionTopic { partitions: [Vec::new(), Vec::new()] }
    }

    fn route(key: &str) -> usize {
        (key.bytes().map(|b| b as usize).sum::<usize>()) % 2
    }

    fn publish(&mut self, key: String, payload: Vec<u8>) -> (usize, usize) {
        let partition = Self::route(&key);
        self.partitions[partition].push((key, payload));
        (partition, self.partitions[partition].len() - 1)
    }

    fn read_from_earliest(&self) -> Vec<Vec<u8>> {
        let mut records = Vec::new();
        for partition in &self.partitions {
            for (_, payload) in partition {
                records.push(payload.clone());
            }
        }
        records
    }
}

#[test]
fn publish_then_subscribe_round_trip() {
    // Build the commitment for slots 100..200 over one account snapshot.
    let info = AccountInfo {
        data: vec!["aGVsbG8=".to_string()],
        executable: false,
        lamports: 12345,
        owner: OWNER.to_string(),
        rent_epoch: 361,
        space: 5,
    };
    let input = prepare_prover_input(PUBKEY, &info, 100, 200, 200).unwrap();
    let commitments = build_commitments(input).unwrap();
    assert!(commitments.validations_passed);
    let public_value = encode_public_commitments(&commitments);

    // Prove (with canned backend artifacts) and publish.
    let mut session = ProverSession::new(100, 200);
    session.begin_prove(ProofMode::Compressed);
    session.setup_completed([7u8; 32]);
    let envelope = session.proving_completed(vec![0xAA, 0xBB], public_value);
    assert_eq!(envelope.identifier, "solana-stub-100-200");

    let mut topic = TwoPartitionTopic::new();
    let (key, payload) = prepare_publish(&envelope);
    assert_eq!(key, "solana-stub-100-200");
    let (partition, offset) = topic.publish(key, payload);
    assert!(partition < 2);
    assert_eq!(offset, 0);

    // A subscriber starting from the earliest offset receives exactly that
    // envelope and decodes it back to the original commitment.
    let mut state = SubscriberState::new();
    let records = topic.read_from_earliest();
    assert_eq!(records.len(), 1);
    let mut delivered: Vec<ZkProof> = Vec::new();
    for record in records {
        match subscriber_step(&mut state, ReceiveEvent::Record(record)) {
            SubscriberAction::Deliver(p) => delivered.push(p),
            _ => panic!("expected delivery"),
        }
    }
    assert_eq!(delivered.len(), 1);
    let received = &delivered[0];
    assert!(received.same_as(&envelope));

    let received_pv = match &received.proof_data {
        ProofData::SP1(p) => &p.public_value,
        _ => panic!("expected the SP1 family"),
    };
    let decoded = decode_public_commitments(received_pv).unwrap();
    assert!(decoded.same_as(&commitments));
    assert_eq!(decoded.start_slot, 100);
    assert_eq!(decoded.end_slot, 200);
    let expected_account = account_commitment(PUBKEY, &info, 200).unwrap();
    assert!(decoded.monitored_accounts_state[0].same_as(&expected_account));
}
