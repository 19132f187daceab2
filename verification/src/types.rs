//! Data model: per-account state commitments, the public commitment of one
//! proof, the prover input, and the proof envelope carried on the message
//! bus. Each executable type has a mathematical view; contracts speak of the
//! views.

use vstd::prelude::*;

verus! {

/// One monitored account's attested state.
#[derive(Debug, Clone)]
pub struct AccountStateCommitment {
    pub account_pubkey: [u8; 32],
    pub last_change_slot: u64,
    pub account_data_hash: [u8; 32],
    pub lamports: u64,
    pub owner: [u8; 32],
    pub executable: bool,
    pub rent_epoch: u64,
    pub data: Vec<u8>,
}

#[verifier::ext_equal]
pub ghost struct AccountStateCommitmentView {
    pub account_pubkey: Seq<u8>,
    pub last_change_slot: u64,
    pub account_data_hash: Seq<u8>,
    pub lamports: u64,
    pub owner: Seq<u8>,
    pub executable: bool,
    pub rent_epoch: u64,
    pub data: Seq<u8>,
}

impl View for AccountStateCommitment {
    type V = AccountStateCommitmentView;

    open spec fn view(&self) -> AccountStateCommitmentView {
        AccountStateCommitmentView {
            account_pubkey: self.account_pubkey@,
            last_change_slot: self.last_change_slot,
            account_data_hash: self.account_data_hash@,
            lamports: self.lamports,
            owner: self.owner@,
            executable: self.executable,
            rent_epoch: self.rent_epoch,
            data: self.data@,
        }
    }
}

impl AccountStateCommitmentView {
    /// The fixed-width fields have their stated widths and the raw payload
    /// fits a 64-bit length prefix.
    pub open spec fn wf(self) -> bool {
        &&& self.account_pubkey.len() == 32
        &&& self.account_data_hash.len() == 32
        &&& self.owner.len() == 32
        &&& self.data.len() <= u64::MAX
    }
}

/// The views of a sequence of account commitments.
pub open spec fn views_of_accounts(s: Seq<AccountStateCommitment>) -> Seq<
    AccountStateCommitmentView,
> {
    s.map_values(|a: AccountStateCommitment| a@)
}

/// One proof's complete public statement.
#[derive(Debug, Clone)]
pub struct PublicCommitments {
    /// Start slot number of the proven chain.
    pub start_slot: u64,
    /// End slot number of the proven chain.
    pub end_slot: u64,
    /// Epoch number for the end slot.
    pub epoch: u64,
    /// Bank hash of the first slot in the chain.
    pub original_bank_hash: [u8; 32],
    /// Bank hash of the last slot in the chain.
    pub last_bank_hash: [u8; 32],
    /// Aggregate digest over all monitored accounts' committed fields.
    pub account_data_hash: [u8; 32],
    /// Validator-set commitment (an explicit placeholder in this design).
    pub hash_root_valset: [u8; 32],
    /// Total active stake in the epoch.
    pub total_active_stake: u64,
    /// Number of validators in the epoch.
    pub validator_count: u32,
    /// Ordered per-account commitments; order equals input order.
    pub monitored_accounts_state: Vec<AccountStateCommitment>,
    /// True exactly when every validation step succeeded.
    pub validations_passed: bool,
}

#[verifier::ext_equal]
pub ghost struct PublicCommitmentsView {
    pub start_slot: u64,
    pub end_slot: u64,
    pub epoch: u64,
    pub original_bank_hash: Seq<u8>,
    pub last_bank_hash: Seq<u8>,
    pub account_data_hash: Seq<u8>,
    pub hash_root_valset: Seq<u8>,
    pub total_active_stake: u64,
    pub validator_count: u32,
    pub monitored_accounts_state: Seq<AccountStateCommitmentView>,
    pub validations_passed: bool,
}

impl View for PublicCommitments {
    type V = PublicCommitmentsView;

    open spec fn view(&self) -> PublicCommitmentsView {
        PublicCommitmentsView {
            start_slot: self.start_slot,
            end_slot: self.end_slot,
            epoch: self.epoch,
            original_bank_hash: self.original_bank_hash@,
            last_bank_hash: self.last_bank_hash@,
            account_data_hash: self.account_data_hash@,
            hash_root_valset: self.hash_root_valset@,
            total_active_stake: self.total_active_stake,
            validator_count: self.validator_count,
            monitored_accounts_state: views_of_accounts(self.monitored_accounts_state@),
            validations_passed: self.validations_passed,
        }
    }
}

impl PublicCommitmentsView {
    /// The fixed-width fields have their stated widths, each account is
    /// well-formed, and the account count fits a 64-bit prefix.
    pub open spec fn wf(self) -> bool {
        &&& self.original_bank_hash.len() == 32
        &&& self.last_bank_hash.len() == 32
        &&& self.account_data_hash.len() == 32
        &&& self.hash_root_valset.len() == 32
        &&& self.monitored_accounts_state.len() <= u64::MAX
        &&& forall|i: int|
            0 <= i < self.monitored_accounts_state.len()
                ==> (#[trigger] self.monitored_accounts_state[i]).wf()
    }
}

/// Input handed to the proving backend.
#[derive(Debug, Clone)]
pub struct ProverInput {
    pub start_slot: u64,
    pub end_slot: u64,
    pub epoch: u64,
    pub original_bank_hash: [u8; 32],
    pub last_bank_hash: [u8; 32],
    pub monitored_accounts_state: Vec<AccountStateCommitment>,
}

#[verifier::ext_equal]
pub ghost struct ProverInputView {
    pub start_slot: u64,
    pub end_slot: u64,
    pub epoch: u64,
    pub original_bank_hash: Seq<u8>,
    pub last_bank_hash: Seq<u8>,
    pub monitored_accounts_state: Seq<AccountStateCommitmentView>,
}

impl View for ProverInput {
    type V = ProverInputView;

    open spec fn view(&self) -> ProverInputView {
        ProverInputView {
            start_slot: self.start_slot,
            end_slot: self.end_slot,
            epoch: self.epoch,
            original_bank_hash: self.original_bank_hash@,
            last_bank_hash: self.last_bank_hash@,
            monitored_accounts_state: views_of_accounts(self.monitored_accounts_state@),
        }
    }
}

/// One proof artifact of the SP1 proving-system family.
#[derive(Debug, Clone)]
pub struct SP1Proof {
    /// Family schema version, for backward-compatible decoding.
    pub version: u64,
    /// Opaque proof bytes.
    pub proof: Vec<u8>,
    /// Opaque public-value bytes; of a consensus proof they decode to a
    /// `PublicCommitments`.
    pub public_value: Vec<u8>,
    pub verification_key: [u8; 32],
}

#[verifier::ext_equal]
pub ghost struct SP1ProofView {
    pub version: u64,
    pub proof: Seq<u8>,
    pub public_value: Seq<u8>,
    pub verification_key: Seq<u8>,
}

impl View for SP1Proof {
    type V = SP1ProofView;

    open spec fn view(&self) -> SP1ProofView {
        SP1ProofView {
            version: self.version,
            proof: self.proof@,
            public_value: self.public_value@,
            verification_key: self.verification_key@,
        }
    }
}

impl SP1ProofView {
    pub open spec fn wf(self) -> bool {
        &&& self.verification_key.len() == 32
        &&& self.proof.len() <= u64::MAX
        &&& self.public_value.len() <= u64::MAX
    }
}

/// The kind of a proof. Unknown tags decode into the fallback variant so that
/// forward-incompatible traffic still carries through.
#[derive(Debug, Clone, Copy, PartialEq, Eq, Structural)]
pub enum ProofKind {
    ExecutionProof(u64),
    SolanaConsensusProof,
    /// A kind tag this schema does not know; kept for forward compatibility.
    Unknown(u32),
}

impl ProofKind {
    /// Well-formed values reserve the known tags for the known variants.
    pub open spec fn wf(self) -> bool {
        self matches ProofKind::Unknown(t) ==> t >= 2
    }
}

/// The proof payload, tagged by proving-system family.
#[derive(Debug, Clone)]
pub enum ProofData {
    SP1(SP1Proof),
    /// A family tag this schema does not know, with its raw payload.
    Unknown(u32, Vec<u8>),
}

#[verifier::ext_equal]
pub ghost enum ProofDataView {
    SP1(SP1ProofView),
    Unknown(u32, Seq<u8>),
}

impl View for ProofData {
    type V = ProofDataView;

    open spec fn view(&self) -> ProofDataView {
        match self {
            ProofData::SP1(p) => ProofDataView::SP1(p@),
            ProofData::Unknown(t, b) => ProofDataView::Unknown(*t, b@),
        }
    }
}

impl ProofDataView {
    pub open spec fn wf(self) -> bool {
        match self {
            ProofDataView::SP1(p) => p.wf(),
            ProofDataView::Unknown(t, _) => t >= 1,
        }
    }
}

/// The wire envelope: an identifier used as partition key, a proof kind, and
/// a family-tagged payload.
#[derive(Debug, Clone)]
pub struct ZkProof {
    pub identifier: String,
    pub proof_kind: ProofKind,
    pub proof_data: ProofData,
}

#[verifier::ext_equal]
pub ghost struct ZkProofView {
    pub identifier: Seq<char>,
    pub proof_kind: ProofKind,
    pub proof_data: ProofDataView,
}

impl View for ZkProof {
    type V = ZkProofView;

    open spec fn view(&self) -> ZkProofView {
        ZkProofView {
            identifier: self.identifier@,
            proof_kind: self.proof_kind,
            proof_data: self.proof_data@,
        }
    }
}

impl ZkProofView {
    pub open spec fn wf(self) -> bool {
        &&& vstd::utf8::encode_utf8(self.identifier).len() <= u64::MAX
        &&& self.proof_kind.wf()
        &&& self.proof_data.wf()
    }
}

/// Equality of byte vectors, by their contents.
pub(crate) fn bytes_eq(a: &Vec<u8>, b: &Vec<u8>) -> (r: bool)
    ensures
        r == (a@ == b@),
{
    if a.len() != b.len() {
        return false;
    }
    let mut i: usize = 0;
    while i < a.len()
        invariant
            i <= a.len(),
            a@.len() == b@.len(),
            forall|j: int| 0 <= j < i ==> a@[j] == b@[j],
        decreases a.len() - i,
    {
        if a[i] != b[i] {
            return false;
        }
        i += 1;
    }
    proof {
        assert(a@ =~= b@);
    }
    true
}

/// Equality of 32-byte arrays, by their contents.
pub(crate) fn bytes32_eq(a: &[u8; 32], b: &[u8; 32]) -> (r: bool)
    ensures
        r == (a@ == b@),
{
    let mut i: usize = 0;
    while i < 32
        invariant
            i <= 32,
            forall|j: int| 0 <= j < i ==> a@[j] == b@[j],
        decreases 32 - i,
    {
        if a[i] != b[i] {
            return false;
        }
        i += 1;
    }
    proof {
        assert(a@ =~= b@);
    }
    true
}

impl AccountStateCommitment {
    /// Value equality: true exactly when the two views are equal.
    pub fn same_as(&self, other: &AccountStateCommitment) -> (r: bool)
        ensures
            r == (self@ == other@),
    {
        let r = bytes32_eq(&self.account_pubkey, &other.account_pubkey)
            && self.last_change_slot == other.last_change_slot
            && bytes32_eq(&self.account_data_hash, &other.account_data_hash)
            && self.lamports == other.lamports
            && bytes32_eq(&self.owner, &other.owner)
            && self.executable == other.executable
            && self.rent_epoch == other.rent_epoch
            && bytes_eq(&self.data, &other.data);
        proof {
            if r {
                assert(self@ =~= other@);
            }
        }
        r
    }
}

impl PublicCommitments {
    /// Value equality: true exactly when the two views are equal.
    pub fn same_as(&self, other: &PublicCommitments) -> (r: bool)
        ensures
            r == (self@ == other@),
    {
        if !(self.start_slot == other.start_slot && self.end_slot == other.end_slot
            && self.epoch == other.epoch && bytes32_eq(
            &self.original_bank_hash,
            &other.original_bank_hash,
        ) && bytes32_eq(&self.last_bank_hash, &other.last_bank_hash) && bytes32_eq(
            &self.account_data_hash,
            &other.account_data_hash,
        ) && bytes32_eq(&self.hash_root_valset, &other.hash_root_valset)
            && self.total_active_stake == other.total_active_stake
            && self.validator_count == other.validator_count
            && self.validations_passed == other.validations_passed) {
            return false;
        }
        if self.monitored_accounts_state.len() != other.monitored_accounts_state.len() {
            assert(self@.monitored_accounts_state.len()
                != other@.monitored_accounts_state.len());
            return false;
        }
        let n = self.monitored_accounts_state.len();
        let mut i: usize = 0;
        while i < n
            invariant
                i <= n,
                n == self.monitored_accounts_state@.len(),
                n == other.monitored_accounts_state@.len(),
                forall|j: int|
                    0 <= j < i ==> #[trigger] self@.monitored_accounts_state[j]
                        == other@.monitored_accounts_state[j],
            decreases n - i,
        {
            if !self.monitored_accounts_state[i].same_as(&other.monitored_accounts_state[i]) {
                assert(self@.monitored_accounts_state[i as int]
                    != other@.monitored_accounts_state[i as int]);
                return false;
            }
            i += 1;
        }
        proof {
            assert(self@.monitored_accounts_state =~= other@.monitored_accounts_state);
            assert(self@ =~= other@);
        }
        true
    }
}

impl SP1Proof {
    /// Value equality: true exactly when the two views are equal.
    pub fn same_as(&self, other: &SP1Proof) -> (r: bool)
        ensures
            r == (self@ == other@),
    {
        let r = self.version == other.version && bytes_eq(&self.proof, &other.proof) && bytes_eq(
            &self.public_value,
            &other.public_value,
        ) && bytes32_eq(&self.verification_key, &other.verification_key);
        proof {
            if r {
                assert(self@ =~= other@);
            }
        }
        r
    }
}

impl ProofData {
    /// Value equality: true exactly when the two views are equal.
    pub fn same_as(&self, other: &ProofData) -> (r: bool)
        ensures
            r == (self@ == other@),
    {
        match (self, other) {
            (ProofData::SP1(a), ProofData::SP1(b)) => a.same_as(b),
            (ProofData::Unknown(ta, ba), ProofData::Unknown(tb, bb)) => {
                let r = *ta == *tb && bytes_eq(ba, bb);
                proof {
                    if r {
                        assert(self@ =~= other@);
                    }
                }
                r
            },
            _ => false,
        }
    }
}

impl ZkProof {
    /// Value equality: true exactly when the two views are equal.
    pub fn same_as(&self, other: &ZkProof) -> (r: bool)
        ensures
            r == (self@ == other@),
    {
        let r = self.identifier == other.identifier && self.proof_kind == other.proof_kind
            && self.proof_data.same_as(&other.proof_data);
        proof {
            if r {
                assert(self@ =~= other@);
            }
        }
        r
    }
}

} // verus!
