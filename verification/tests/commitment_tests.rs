use solana_stub_prover::commitment::{
    aggregate_preimage, build_commitments, CommitError, STUB_TOTAL_ACTIVE_STAKE,
    STUB_VALIDATOR_COUNT,
};
use solana_stub_prover::types::{AccountStateCommitment, ProverInput};
use solana_stub_prover::utils::{get_epoch_for_slot, sha256_from_u64, sha256_hash};

fn account(tag: u8, slot: u64, data: Vec<u8>) -> AccountStateCommitment {
    AccountStateCommitment {
        account_pubkey: [tag; 32],
        last_change_slot: slot,
        account_data_hash: sha256_hash(&data),
        lamports: 1000 + tag as u64,
        owner: [0xAA; 32],
        executable: false,
        rent_epoch: 3,
        data,
    }
}

fn input(start_slot: u64, end_slot: u64, accounts: Vec<AccountStateCommitment>) -> ProverInput {
    ProverInput {
        start_slot,
        end_slot,
        epoch: 0,
        original_bank_hash: sha256_from_u64(start_slot),
        last_bank_hash: sha256_from_u64(end_slot),
        monitored_accounts_state: accounts,
    }
}

#[test]
fn build_rejects_equal_slots() {
    let r = build_commitments(input(100, 100, vec![account(1, 100, vec![1, 2, 3])]));
    assert!(matches!(r, Err(CommitError::InvalidRange)));
}

#[test]
fn build_rejects_reversed_slots() {
    let r = build_commitments(input(200, 100, vec![]));
    assert!(matches!(r, Err(CommitError::InvalidRange)));
}

#[test]
fn build_succeeds_on_valid_range() {
    let c = build_commitments(input(100, 200, vec![account(1, 200, vec![1, 2, 3])])).unwrap();
    assert!(c.validations_passed);
    assert_eq!(c.start_slot, 100);
    assert_eq!(c.end_slot, 200);
    assert_eq!(c.epoch, 0);
    assert_eq!(c.hash_root_valset, [0u8; 32]);
    assert_eq!(c.total_active_stake, STUB_TOTAL_ACTIVE_STAKE);
    assert_eq!(c.validator_count, STUB_VALIDATOR_COUNT);
    assert_eq!(c.monitored_accounts_state.len(), 1);
}

#[test]
fn build_is_deterministic() {
    let mk = || input(5, 999, vec![account(1, 999, vec![9, 8, 7]), account(2, 999, vec![])]);
    let c1 = build_commitments(mk()).unwrap();
    let c2 = build_commitments(mk()).unwrap();
    assert!(c1.same_as(&c2));
    let b1 = solana_stub_prover::codec::encode_public_commitments(&c1);
    let b2 = solana_stub_prover::codec::encode_public_commitments(&c2);
    assert_eq!(b1, b2);
}

#[test]
fn reordering_accounts_changes_aggregate_hash() {
    let a = account(1, 10, vec![1]);
    let b = account(2, 20, vec![2]);
    let c1 = build_commitments(input(1, 2, vec![a.clone(), b.clone()])).unwrap();
    let c2 = build_commitments(input(1, 2, vec![b, a])).unwrap();
    assert_ne!(c1.account_data_hash, c2.account_data_hash);
}

#[test]
fn aggregate_preimage_layout() {
    let a = account(7, 0x0102030405060708, vec![42]);
    let pre = aggregate_preimage(&vec![a.clone()]);
    assert_eq!(pre.len(), 72);
    assert_eq!(&pre[0..32], &[7u8; 32]);
    assert_eq!(&pre[32..40], &0x0102030405060708u64.to_le_bytes());
    assert_eq!(&pre[40..72], &a.account_data_hash);
}

#[test]
fn aggregate_hash_is_digest_of_preimage() {
    let accounts = vec![account(1, 10, vec![1, 2]), account(2, 20, vec![])];
    let pre = aggregate_preimage(&accounts);
    let c = build_commitments(input(1, 2, accounts)).unwrap();
    assert_eq!(c.account_data_hash, sha256_hash(&pre));
}

#[test]
fn epoch_boundaries() {
    assert_eq!(get_epoch_for_slot(0), 0);
    assert_eq!(get_epoch_for_slot(431999), 0);
    assert_eq!(get_epoch_for_slot(432000), 1);
    assert_eq!(get_epoch_for_slot(863999), 1);
    assert_eq!(get_epoch_for_slot(864000), 2);
}

#[test]
fn build_derives_epoch_from_end_slot() {
    let c = build_commitments(input(1, 432000, vec![])).unwrap();
    assert_eq!(c.epoch, 1);
    let c = build_commitments(input(1, 431999, vec![])).unwrap();
    assert_eq!(c.epoch, 0);
}
