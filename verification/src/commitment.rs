//! The commitment builder: folds a slot range and an ordered sequence of
//! account commitments into one `PublicCommitments` value. The aggregate
//! digest input is fully specified; order sensitivity of that input is proved
//! below.

use vstd::prelude::*;

verus! {

use vstd::bytes::{spec_u64_to_le_bytes, spec_u64_from_le_bytes, lemma_auto_spec_u64_to_from_le_bytes};
use crate::types::{AccountStateCommitment, AccountStateCommitmentView, PublicCommitments,
    PublicCommitmentsView, ProverInput, ProverInputView, views_of_accounts};
use crate::utils::{sha256_of, sha256_hash, SLOTS_PER_EPOCH};

/// Stake placeholder committed by the stub prover.
pub const STUB_TOTAL_ACTIVE_STAKE: u64 = 1000000000;

/// Validator-count placeholder committed by the stub prover.
pub const STUB_VALIDATOR_COUNT: u32 = 100;

/// A 32-byte all-zero digest: the explicit "unimplemented" marker used for
/// the validator-set commitment.
pub open spec fn zero32() -> Seq<u8> {
    Seq::new(32, |i: int| 0u8)
}

/// The bytes one account contributes to the aggregate digest input: its
/// pubkey, its last-change slot as little-endian bytes, and its per-account
/// data hash.
pub open spec fn spec_record_bytes(a: AccountStateCommitmentView) -> Seq<u8> {
    a.account_pubkey + spec_u64_to_le_bytes(a.last_change_slot) + a.account_data_hash
}

/// The aggregate digest input: every account's record bytes, in sequence
/// order.
pub open spec fn spec_aggregate_preimage(s: Seq<AccountStateCommitmentView>) -> Seq<u8>
    decreases s.len(),
{
    if s.len() == 0 {
        Seq::empty()
    } else {
        spec_record_bytes(s[0]) + spec_aggregate_preimage(s.drop_first())
    }
}

/// Appending one account to the sequence appends its record bytes to the
/// digest input.
pub proof fn lemma_aggregate_preimage_snoc(s: Seq<AccountStateCommitmentView>, i: int)
    requires
        0 <= i < s.len(),
    ensures
        spec_aggregate_preimage(s.take(i + 1)) == spec_aggregate_preimage(s.take(i))
            + spec_record_bytes(s[i]),
    decreases i,
{
    let t1 = s.take(i + 1);
    let t0 = s.take(i);
    if i == 0 {
        assert(t1.drop_first() =~= Seq::empty());
        assert(t0 =~= Seq::<AccountStateCommitmentView>::empty());
        assert(spec_aggregate_preimage(t1) == spec_record_bytes(t1[0]) + spec_aggregate_preimage(
            t1.drop_first(),
        ));
        assert(spec_aggregate_preimage(t1) =~= spec_aggregate_preimage(t0) + spec_record_bytes(
            s[0],
        ));
    } else {
        lemma_aggregate_preimage_snoc(s.drop_first(), i - 1);
        assert(t1.drop_first() =~= s.drop_first().take(i));
        assert(t0.drop_first() =~= s.drop_first().take(i - 1));
        assert(t1[0] == s[0]);
        assert(t0[0] == s[0]);
        assert(s.drop_first()[i - 1] == s[i]);
        assert(spec_aggregate_preimage(t1) == spec_record_bytes(s[0]) + spec_aggregate_preimage(
            s.drop_first().take(i),
        ));
        assert(spec_aggregate_preimage(t0) == spec_record_bytes(s[0]) + spec_aggregate_preimage(
            s.drop_first().take(i - 1),
        ));
        assert(spec_record_bytes(s[0]) + (spec_aggregate_preimage(s.drop_first().take(i - 1))
            + spec_record_bytes(s[i])) =~= (spec_record_bytes(s[0]) + spec_aggregate_preimage(
            s.drop_first().take(i - 1),
        )) + spec_record_bytes(s[i]));
    }
}

/// Build the aggregate digest input for a list of accounts.
pub fn aggregate_preimage(accounts: &Vec<AccountStateCommitment>) -> (r: Vec<u8>)
    ensures
        r@ == spec_aggregate_preimage(views_of_accounts(accounts@)),
{
    let ghost views = views_of_accounts(accounts@);
    let mut out: Vec<u8> = Vec::new();
    let n = accounts.len();
    let mut i: usize = 0;
    proof {
        assert(views.take(0) =~= Seq::empty());
    }
    while i < n
        invariant
            i <= n,
            n == accounts@.len(),
            views == views_of_accounts(accounts@),
            views.len() == n,
            out@ == spec_aggregate_preimage(views.take(i as int)),
        decreases n - i,
    {
        let a = &accounts[i];
        let mut j: usize = 0;
        while j < 32
            invariant
                j <= 32,
                i < accounts@.len(),
                a == accounts@[i as int],
                out@ == spec_aggregate_preimage(views.take(i as int)) + a.account_pubkey@.take(
                    j as int,
                ),
            decreases 32 - j,
        {
            out.push(a.account_pubkey[j]);
            proof {
                assert(out@ =~= spec_aggregate_preimage(views.take(i as int))
                    + a.account_pubkey@.take(j + 1));
            }
            j += 1;
        }
        proof {
            assert(a.account_pubkey@.take(32) =~= a.account_pubkey@);
        }
        let slot_bytes = vstd::bytes::u64_to_le_bytes(a.last_change_slot);
        let mut j: usize = 0;
        while j < slot_bytes.len()
            invariant
                j <= slot_bytes@.len(),
                i < accounts@.len(),
                a == accounts@[i as int],
                slot_bytes@ == spec_u64_to_le_bytes(a.last_change_slot),
                slot_bytes@.len() == 8,
                out@ == spec_aggregate_preimage(views.take(i as int)) + a.account_pubkey@
                    + slot_bytes@.take(j as int),
            decreases slot_bytes@.len() - j,
        {
            out.push(slot_bytes[j]);
            proof {
                assert(out@ =~= spec_aggregate_preimage(views.take(i as int)) + a.account_pubkey@
                    + slot_bytes@.take(j + 1));
            }
            j += 1;
        }
        proof {
            assert(slot_bytes@.take(8) =~= slot_bytes@);
        }
        let mut j: usize = 0;
        while j < 32
            invariant
                j <= 32,
                i < accounts@.len(),
                a == accounts@[i as int],
                out@ == spec_aggregate_preimage(views.take(i as int)) + a.account_pubkey@
                    + spec_u64_to_le_bytes(a.last_change_slot) + a.account_data_hash@.take(j as int),
            decreases 32 - j,
        {
            out.push(a.account_data_hash[j]);
            proof {
                assert(out@ =~= spec_aggregate_preimage(views.take(i as int)) + a.account_pubkey@
                    + spec_u64_to_le_bytes(a.last_change_slot) + a.account_data_hash@.take(j + 1));
            }
            j += 1;
        }
        proof {
            assert(a.account_data_hash@.take(32) =~= a.account_data_hash@);
            lemma_aggregate_preimage_snoc(views, i as int);
            assert(views[i as int] == accounts@[i as int]@);
            assert(out@ =~= spec_aggregate_preimage(views.take(i as int)) + spec_record_bytes(
                views[i as int],
            ));
        }
        i += 1;
    }
    proof {
        assert(views.take(n as int) =~= views);
    }
    out
}

/// Errors of the commitment builder.
#[derive(Debug, Clone, Copy, PartialEq, Eq, Structural)]
pub enum CommitError {
    /// The slot bounds are malformed: the end slot does not exceed the start
    /// slot.
    InvalidRange,
}

/// What the builder produces on a well-formed input: the slot range and bank
/// hashes are carried over, the epoch is derived from the end slot, the
/// aggregate digest is the SHA-256 of the accounts' digest input, the
/// validator-set commitment is the explicit zero placeholder, and
/// `validations_passed` is true.
pub open spec fn spec_build(i: ProverInputView) -> PublicCommitmentsView {
    PublicCommitmentsView {
        start_slot: i.start_slot,
        end_slot: i.end_slot,
        epoch: (i.end_slot / SLOTS_PER_EPOCH) as u64,
        original_bank_hash: i.original_bank_hash,
        last_bank_hash: i.last_bank_hash,
        account_data_hash: sha256_of(spec_aggregate_preimage(i.monitored_accounts_state)),
        hash_root_valset: zero32(),
        total_active_stake: STUB_TOTAL_ACTIVE_STAKE,
        validator_count: STUB_VALIDATOR_COUNT,
        monitored_accounts_state: i.monitored_accounts_state,
        validations_passed: true,
    }
}

/// Fold a prover input into its public commitment. Succeeds exactly when
/// `end_slot > start_slot`; the result is the complete, pinned-down
/// commitment of `spec_build`. No partial commitment is ever returned.
pub fn build_commitments(input: ProverInput) -> (r: Result<PublicCommitments, CommitError>)
    ensures
        r is Ok <==> input.end_slot > input.start_slot,
        r matches Ok(c) ==> c@ == spec_build(input@),
        r matches Err(e) ==> e == CommitError::InvalidRange,
{
    if input.end_slot <= input.start_slot {
        return Err(CommitError::InvalidRange);
    }
    let preimage = aggregate_preimage(&input.monitored_accounts_state);
    let account_data_hash = sha256_hash(preimage.as_slice());
    let epoch = crate::utils::get_epoch_for_slot(input.end_slot);
    let c = PublicCommitments {
        start_slot: input.start_slot,
        end_slot: input.end_slot,
        epoch,
        original_bank_hash: input.original_bank_hash,
        last_bank_hash: input.last_bank_hash,
        account_data_hash,
        hash_root_valset: [0u8; 32],
        total_active_stake: STUB_TOTAL_ACTIVE_STAKE,
        validator_count: STUB_VALIDATOR_COUNT,
        monitored_accounts_state: input.monitored_accounts_state,
        validations_passed: true,
    };
    proof {
        assert(c.hash_root_valset@ =~= zero32());
        assert(c@ =~= spec_build(input@));
    }
    Ok(c)
}

/// Law: the build is deterministic. Re-running the build on the same ordered
/// account sequence and slot range yields the identical commitment and, in
/// turn, identical wire bytes.
pub proof fn lemma_build_deterministic(i1: ProverInputView, i2: ProverInputView)
    requires
        i1 == i2,
    ensures
        spec_build(i1) == spec_build(i2),
        crate::codec::spec_encode_public_commitments(spec_build(i1))
            == crate::codec::spec_encode_public_commitments(spec_build(i2)),
{
}

/// The committed triple of one account: exactly the fields that enter the
/// aggregate digest input.
pub open spec fn committed_triple(a: AccountStateCommitmentView) -> (Seq<u8>, u64, Seq<u8>) {
    (a.account_pubkey, a.last_change_slot, a.account_data_hash)
}

/// Record bytes are injective on committed triples: two well-formed accounts
/// with different triples contribute different bytes.
pub proof fn lemma_record_bytes_injective(a: AccountStateCommitmentView, b: AccountStateCommitmentView)
    requires
        a.wf(),
        b.wf(),
        spec_record_bytes(a) == spec_record_bytes(b),
    ensures
        committed_triple(a) == committed_triple(b),
{
    lemma_auto_spec_u64_to_from_le_bytes();
    let ra = spec_record_bytes(a);
    let rb = spec_record_bytes(b);
    assert(ra.len() == 72);
    assert(ra.subrange(0, 32) =~= a.account_pubkey);
    assert(ra.subrange(32, 40) =~= spec_u64_to_le_bytes(a.last_change_slot));
    assert(ra.subrange(40, 72) =~= a.account_data_hash);
    assert(rb.subrange(0, 32) =~= b.account_pubkey);
    assert(rb.subrange(32, 40) =~= spec_u64_to_le_bytes(b.last_change_slot));
    assert(rb.subrange(40, 72) =~= b.account_data_hash);
    assert(spec_u64_from_le_bytes(spec_u64_to_le_bytes(a.last_change_slot))
        == spec_u64_from_le_bytes(spec_u64_to_le_bytes(b.last_change_slot)));
}

/// The digest input determines every committed triple: two well-formed
/// account sequences of equal length with equal digest inputs agree on every
/// committed triple, position by position.
pub proof fn lemma_aggregate_preimage_injective(
    s1: Seq<AccountStateCommitmentView>,
    s2: Seq<AccountStateCommitmentView>,
)
    requires
        s1.len() == s2.len(),
        forall|k: int| 0 <= k < s1.len() ==> (#[trigger] s1[k]).wf(),
        forall|k: int| 0 <= k < s2.len() ==> (#[trigger] s2[k]).wf(),
        spec_aggregate_preimage(s1) == spec_aggregate_preimage(s2),
    ensures
        forall|k: int|
            0 <= k < s1.len() ==> committed_triple(#[trigger] s1[k]) == committed_triple(s2[k]),
    decreases s1.len(),
{
    if s1.len() > 0 {
        lemma_auto_spec_u64_to_from_le_bytes();
        let p1 = spec_aggregate_preimage(s1);
        let p2 = spec_aggregate_preimage(s2);
        let r1 = spec_record_bytes(s1[0]);
        let r2 = spec_record_bytes(s2[0]);
        assert(s1[0].wf());
        assert(s2[0].wf());
        assert(r1.len() == 72);
        assert(r2.len() == 72);
        assert(p1 == r1 + spec_aggregate_preimage(s1.drop_first()));
        assert(p2 == r2 + spec_aggregate_preimage(s2.drop_first()));
        assert(r1 =~= p1.subrange(0, 72));
        assert(r2 =~= p2.subrange(0, 72));
        lemma_record_bytes_injective(s1[0], s2[0]);
        assert(spec_aggregate_preimage(s1.drop_first()) =~= p1.subrange(72, p1.len() as int));
        assert(spec_aggregate_preimage(s2.drop_first()) =~= p2.subrange(72, p2.len() as int));
        lemma_aggregate_preimage_injective(s1.drop_first(), s2.drop_first());
        assert forall|k: int|
            0 <= k < s1.len() implies committed_triple(#[trigger] s1[k]) == committed_triple(
            s2[k],
        ) by {
            if k > 0 {
                assert(s1.drop_first()[k - 1] == s1[k]);
                assert(s2.drop_first()[k - 1] == s2[k]);
            }
        }
    }
}

/// Law: the aggregate digest input is order-sensitive. Swapping two accounts
/// whose committed triples differ changes the digest input, so the aggregate
/// commitment is over a different preimage. (Equality of the SHA-256 values
/// themselves is outside this model.)
pub proof fn lemma_aggregate_preimage_order_sensitive(
    s: Seq<AccountStateCommitmentView>,
    i: int,
    j: int,
)
    requires
        0 <= i < j < s.len(),
        forall|k: int| 0 <= k < s.len() ==> (#[trigger] s[k]).wf(),
        committed_triple(s[i]) != committed_triple(s[j]),
    ensures
        spec_aggregate_preimage(s) != spec_aggregate_preimage(s.update(i, s[j]).update(j, s[i])),
{
    let t = s.update(i, s[j]).update(j, s[i]);
    assert(t.len() == s.len());
    assert forall|k: int| 0 <= k < t.len() implies (#[trigger] t[k]).wf() by {
        if k == i {
            assert(t[k] == s[j]);
        } else if k == j {
            assert(t[k] == s[i]);
        } else {
            assert(t[k] == s[k]);
        }
    }
    if spec_aggregate_preimage(s) == spec_aggregate_preimage(t) {
        lemma_aggregate_preimage_injective(s, t);
        assert(committed_triple(s[i]) == committed_triple(t[i]));
        assert(t[i] == s[j]);
        assert(false);
    }
}

} // verus!
