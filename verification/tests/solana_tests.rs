use solana_stub_prover::solana::{
    account_commitment, effective_end_slot, prepare_prover_input, AccountInfo, SnapshotError,
};
use solana_stub_prover::utils::{base58_to_bytes32, sha256_from_u64, sha256_hash};

const PUBKEY: &str = "So11111111111111111111111111111111111111112";
const OWNER: &str = "11111111111111111111111111111111";

fn info(data: Vec<String>) -> AccountInfo {
    AccountInfo {
        data,
        executable: false,
        lamports: 12345,
        owner: OWNER.to_string(),
        rent_epoch: 361,
        space: 5,
    }
}

#[test]
fn account_commitment_decodes_base64_data() {
    // "aGVsbG8=" is the base64 of "hello".
    let a = account_commitment(PUBKEY, &info(vec!["aGVsbG8=".to_string()]), 777).unwrap();
    assert_eq!(a.data, b"hello".to_vec());
    assert_eq!(a.account_data_hash, sha256_hash(b"hello"));
    assert_eq!(a.account_pubkey, base58_to_bytes32(PUBKEY).unwrap());
    assert_eq!(a.owner, base58_to_bytes32(OWNER).unwrap());
    assert_eq!(a.last_change_slot, 777);
    assert_eq!(a.lamports, 12345);
    assert_eq!(a.rent_epoch, 361);
    assert!(!a.executable);
}

#[test]
fn account_commitment_empty_data_hashes_empty_bytes() {
    let a = account_commitment(PUBKEY, &info(vec![]), 1).unwrap();
    assert!(a.data.is_empty());
    assert_eq!(a.account_data_hash, sha256_hash(b""));
}

#[test]
fn account_commitment_rejects_malformed_base64() {
    let r = account_commitment(PUBKEY, &info(vec!["!!!not-base64!!!".to_string()]), 1);
    assert!(matches!(r, Err(SnapshotError::InvalidData)));
}

#[test]
fn account_commitment_rejects_bad_pubkey() {
    let r = account_commitment("abc", &info(vec![]), 1);
    assert!(matches!(r, Err(SnapshotError::InvalidPubkey(_))));
}

#[test]
fn account_commitment_rejects_bad_owner() {
    let mut i = info(vec![]);
    i.owner = "abc".to_string();
    let r = account_commitment(PUBKEY, &i, 1);
    assert!(matches!(r, Err(SnapshotError::InvalidOwner(_))));
}

#[test]
fn effective_end_slot_takes_the_later_slot() {
    assert_eq!(effective_end_slot(100, 150), 150);
    assert_eq!(effective_end_slot(100, 100), 100);
    assert_eq!(effective_end_slot(100, 50), 100);
}

#[test]
fn prepare_prover_input_assembles_the_run() {
    let inp = prepare_prover_input(PUBKEY, &info(vec![]), 100, 200, 222).unwrap();
    assert_eq!(inp.start_slot, 100);
    assert_eq!(inp.end_slot, 222);
    assert_eq!(inp.epoch, 0);
    assert_eq!(inp.original_bank_hash, sha256_from_u64(100));
    assert_eq!(inp.last_bank_hash, sha256_from_u64(222));
    assert_eq!(inp.monitored_accounts_state.len(), 1);
    assert_eq!(inp.monitored_accounts_state[0].last_change_slot, 222);
}
