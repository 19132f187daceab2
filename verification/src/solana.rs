//! The compute half of the account-snapshot path: given what the RPC
//! collaborator fetched (the raw response values), decode the account data,
//! derive the per-account commitment, and assemble the prover input. The RPC
//! transport itself lives outside the library.

use vstd::prelude::*;

verus! {

use vstd::bytes::spec_u64_to_le_bytes;
use crate::types::{AccountStateCommitment, AccountStateCommitmentView, ProverInput,
    views_of_accounts};
use crate::utils::{base58_decoded, base58_to_bytes32, base64_decoded, base64_decode, sha256_of,
    sha256_hash, sha256_from_u64, get_epoch_for_slot, SLOTS_PER_EPOCH};

/// An RPC `getAccountInfo` response.
#[derive(Debug)]
pub struct AccountInfoResponse {
    pub jsonrpc: String,
    pub result: AccountInfoResult,
}

#[derive(Debug)]
pub struct AccountInfoResult {
    pub context: Context,
    pub value: Option<AccountInfo>,
}

#[derive(Debug)]
pub struct Context {
    pub slot: u64,
}

/// One account as the RPC reports it: the data as base64 text plus its
/// encoding name, and the remaining fields as plain values.
#[derive(Debug)]
pub struct AccountInfo {
    pub data: Vec<String>,
    pub executable: bool,
    pub lamports: u64,
    pub owner: String,
    pub rent_epoch: u64,
    pub space: u64,
}

#[verifier::ext_equal]
pub ghost struct AccountInfoView {
    pub data: Seq<Seq<char>>,
    pub executable: bool,
    pub lamports: u64,
    pub owner: Seq<char>,
    pub rent_epoch: u64,
    pub space: u64,
}

impl View for AccountInfo {
    type V = AccountInfoView;

    open spec fn view(&self) -> AccountInfoView {
        AccountInfoView {
            data: self.data@.map_values(|s: String| s@),
            executable: self.executable,
            lamports: self.lamports,
            owner: self.owner@,
            rent_epoch: self.rent_epoch,
            space: self.space,
        }
    }
}

/// An RPC `getSlot` response.
#[derive(Debug)]
pub struct SlotResponse {
    pub jsonrpc: String,
    pub result: u64,
}

/// Why a snapshot could not be turned into a commitment.
#[derive(Debug)]
pub enum SnapshotError {
    /// The account data is not well-formed base64.
    InvalidData,
    /// The account pubkey is not well-formed base58 of 32 bytes.
    InvalidPubkey(String),
    /// The owner pubkey is not well-formed base58 of 32 bytes.
    InvalidOwner(String),
}

/// The raw bytes of a snapshot's account data: empty when the RPC sent no
/// data, else the base64 decoding of the first data entry.
pub open spec fn spec_account_data(info: AccountInfoView) -> Option<Seq<u8>> {
    if info.data.len() == 0 {
        Some(Seq::empty())
    } else {
        base64_decoded(info.data[0])
    }
}

pub open spec fn data_ok(info: AccountInfoView) -> bool {
    spec_account_data(info) is Some
}

pub open spec fn pubkey_ok(s: Seq<char>) -> bool {
    base58_decoded(s) matches Some(b) && b.len() == 32
}

/// The per-account commitment a snapshot yields: pubkey and owner decoded
/// from base58, the data hash recomputed from the raw bytes.
pub open spec fn spec_snapshot_account(
    account: Seq<char>,
    info: AccountInfoView,
    last_change_slot: u64,
) -> AccountStateCommitmentView {
    AccountStateCommitmentView {
        account_pubkey: base58_decoded(account).unwrap(),
        last_change_slot,
        account_data_hash: sha256_of(spec_account_data(info).unwrap()),
        lamports: info.lamports,
        owner: base58_decoded(info.owner).unwrap(),
        executable: info.executable,
        rent_epoch: info.rent_epoch,
        data: spec_account_data(info).unwrap(),
    }
}

/// Turn one fetched snapshot into its commitment. Succeeds exactly when the
/// data is well-formed base64 and both pubkeys are well-formed 32-byte
/// base58; the checks run in that order and each failure names its field.
pub fn account_commitment(account: &str, info: &AccountInfo, last_change_slot: u64) -> (r: Result<
    AccountStateCommitment,
    SnapshotError,
>)
    ensures
        r is Ok <==> data_ok(info@) && pubkey_ok(account@) && pubkey_ok(info@.owner),
        r matches Ok(a) ==> a@ == spec_snapshot_account(account@, info@, last_change_slot)
            && a@.wf(),
        r matches Err(e) ==> match e {
            SnapshotError::InvalidData => !data_ok(info@),
            SnapshotError::InvalidPubkey(_) => data_ok(info@) && !pubkey_ok(account@),
            SnapshotError::InvalidOwner(_) => data_ok(info@) && pubkey_ok(account@) && !pubkey_ok(
                info@.owner,
            ),
        },
{
    let data: Vec<u8> = if info.data.len() == 0 {
        Vec::new()
    } else {
        match base64_decode(info.data[0].as_str()) {
            Some(v) => v,
            None => {
                return Err(SnapshotError::InvalidData);
            },
        }
    };
    proof {
        assert(data@ == spec_account_data(info@).unwrap());
    }
    let account_pubkey = match base58_to_bytes32(account) {
        Ok(a) => a,
        Err(m) => {
            return Err(SnapshotError::InvalidPubkey(m));
        },
    };
    let owner = match base58_to_bytes32(info.owner.as_str()) {
        Ok(a) => a,
        Err(m) => {
            return Err(SnapshotError::InvalidOwner(m));
        },
    };
    let data_len = data.len();
    let account_data_hash = sha256_hash(data.as_slice());
    let a = AccountStateCommitment {
        account_pubkey,
        last_change_slot,
        account_data_hash,
        lamports: info.lamports,
        owner,
        executable: info.executable,
        rent_epoch: info.rent_epoch,
        data,
    };
    proof {
        assert(a@ =~= spec_snapshot_account(account@, info@, last_change_slot));
    }
    Ok(a)
}

/// The slot the run actually commits to: the RPC may answer from a later slot
/// than requested, and that later slot is then used.
pub open spec fn spec_effective_end_slot(requested: u64, actual: u64) -> u64 {
    if actual > requested {
        actual
    } else {
        requested
    }
}

pub fn effective_end_slot(requested: u64, actual: u64) -> (r: u64)
    ensures
        r == spec_effective_end_slot(requested, actual),
{
    if actual > requested {
        actual
    } else {
        requested
    }
}

/// Assemble the prover input for one monitored account: the effective end
/// slot, its epoch, bank-hash stand-ins derived from the slot bounds, and the
/// single account commitment taken at the effective end slot.
pub fn prepare_prover_input(
    account: &str,
    info: &AccountInfo,
    start_slot: u64,
    requested_end_slot: u64,
    actual_slot: u64,
) -> (r: Result<ProverInput, SnapshotError>)
    ensures
        r is Ok <==> data_ok(info@) && pubkey_ok(account@) && pubkey_ok(info@.owner),
        r matches Ok(inp) ==> {
            let eff = spec_effective_end_slot(requested_end_slot, actual_slot);
            &&& inp.start_slot == start_slot
            &&& inp.end_slot == eff
            &&& inp.epoch == eff / SLOTS_PER_EPOCH
            &&& inp@.original_bank_hash == sha256_of(spec_u64_to_le_bytes(start_slot))
            &&& inp@.last_bank_hash == sha256_of(spec_u64_to_le_bytes(eff))
            &&& inp@.monitored_accounts_state =~= seq![
                spec_snapshot_account(account@, info@, eff),
            ]
        },
        r matches Err(e) ==> match e {
            SnapshotError::InvalidData => !data_ok(info@),
            SnapshotError::InvalidPubkey(_) => data_ok(info@) && !pubkey_ok(account@),
            SnapshotError::InvalidOwner(_) => data_ok(info@) && pubkey_ok(account@) && !pubkey_ok(
                info@.owner,
            ),
        },
{
    let eff = effective_end_slot(requested_end_slot, actual_slot);
    let account_state = match account_commitment(account, info, eff) {
        Ok(a) => a,
        Err(e) => {
            return Err(e);
        },
    };
    let epoch = get_epoch_for_slot(eff);
    let original_bank_hash = sha256_from_u64(start_slot);
    let last_bank_hash = sha256_from_u64(eff);
    let mut monitored_accounts_state: Vec<AccountStateCommitment> = Vec::new();
    monitored_accounts_state.push(account_state);
    let inp = ProverInput {
        start_slot,
        end_slot: eff,
        epoch,
        original_bank_hash,
        last_bank_hash,
        monitored_accounts_state,
    };
    proof {
        assert(inp@.monitored_accounts_state =~= seq![
            spec_snapshot_account(account@, info@, eff),
        ]);
    }
    Ok(inp)
}

} // verus!
