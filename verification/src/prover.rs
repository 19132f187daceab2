//! The proving-backend adapter: the backend itself is an outside capability
//! driven by the caller, so its session is modelled here as a verified state
//! machine. The runner performs the outside work (execute, key setup, prove)
//! and reports each outcome; this module decides the next phase, decodes the
//! executed output, and assembles the proof envelope.

use vstd::prelude::*;

verus! {

use vstd::utf8::encode_utf8;
use crate::types::{PublicCommitments, ZkProof, ZkProofView, ProofKind, ProofData, SP1Proof};
use crate::codec::{decode_public_commitments, spec_decode_public_commitments};
use crate::utils::{spec_decimal, push_decimal, lemma_spec_decimal_ascii,
    lemma_ascii_bytes_valid_utf8, bytes_to_string};

/// The two proving modes: a compressed proof is fast but not independently
/// verifiable on chain; a Groth16 proof is the slower, on-chain-verifiable
/// final form.
#[derive(Debug, Clone, Copy, PartialEq, Eq, Structural)]
pub enum ProofMode {
    Compressed,
    Groth16,
}

/// The envelope schema version each mode publishes under.
pub open spec fn spec_mode_version(m: ProofMode) -> u64 {
    match m {
        ProofMode::Compressed => 1,
        ProofMode::Groth16 => 2,
    }
}

/// Backend faults, surfaced verbatim; retry policy belongs to the caller.
#[derive(Debug, Clone, Copy, PartialEq, Eq, Structural)]
pub enum ProverError {
    /// The dry run failed or returned output this schema cannot decode.
    ExecutionFailed,
    /// Proof generation failed inside the backend.
    ProvingFailed,
    /// The once-per-program key-generation step failed.
    SetupFailed,
}

/// Where a proving session stands.
pub enum ProverPhase {
    Idle,
    Executing,
    SettingUp(ProofMode),
    Proving(ProofMode, [u8; 32]),
    Done,
    Failed(ProverError),
}

/// One proving run over a fixed slot range: either a dry-run execution or a
/// setup-then-prove flow. A failed attempt is terminal for the session.
pub struct ProverSession {
    pub start_slot: u64,
    pub end_slot: u64,
    pub phase: ProverPhase,
}

/// The UTF-8 bytes of the identifier a run publishes under:
/// `solana-stub-<start>-<end>`.
pub open spec fn stub_prefix_bytes() -> Seq<u8> {
    seq![115u8, 111u8, 108u8, 97u8, 110u8, 97u8, 45u8, 115u8, 116u8, 117u8, 98u8, 45u8]
}

pub open spec fn spec_identifier_bytes(start_slot: u64, end_slot: u64) -> Seq<u8> {
    stub_prefix_bytes() + spec_decimal(start_slot as nat) + seq![45u8] + spec_decimal(
        end_slot as nat,
    )
}

proof fn lemma_identifier_bytes_ascii(start_slot: u64, end_slot: u64)
    ensures
        forall|i: int|
            0 <= i < spec_identifier_bytes(start_slot, end_slot).len()
                ==> #[trigger] spec_identifier_bytes(start_slot, end_slot)[i] < 128,
{
    lemma_spec_decimal_ascii(start_slot as nat);
    lemma_spec_decimal_ascii(end_slot as nat);
    let pre = stub_prefix_bytes();
    let d1 = spec_decimal(start_slot as nat);
    let d2 = spec_decimal(end_slot as nat);
    let s = spec_identifier_bytes(start_slot, end_slot);
    assert forall|i: int| 0 <= i < s.len() implies #[trigger] s[i] < 128 by {
        if i < 12 {
            assert(s[i] == pre[i]);
            assert(pre[i] < 128);
        } else if i < 12 + d1.len() {
            assert(s[i] == d1[i - 12]);
        } else if i == 12 + d1.len() {
            assert(s[i] == 45u8);
        } else {
            assert(s[i] == d2[i - 13 - d1.len()]);
        }
    }
}

/// The identifier string of a run over a slot range. Its UTF-8 bytes are
/// exactly `spec_identifier_bytes`.
pub fn proof_identifier(start_slot: u64, end_slot: u64) -> (r: String)
    ensures
        encode_utf8(r@) == spec_identifier_bytes(start_slot, end_slot),
{
    let mut bytes: Vec<u8> = Vec::new();
    bytes.push(115);
    bytes.push(111);
    bytes.push(108);
    bytes.push(97);
    bytes.push(110);
    bytes.push(97);
    bytes.push(45);
    bytes.push(115);
    bytes.push(116);
    bytes.push(117);
    bytes.push(98);
    bytes.push(45);
    proof {
        assert(bytes@ =~= stub_prefix_bytes());
    }
    push_decimal(&mut bytes, start_slot);
    bytes.push(45);
    push_decimal(&mut bytes, end_slot);
    proof {
        assert(bytes@ =~= spec_identifier_bytes(start_slot, end_slot));
        lemma_identifier_bytes_ascii(start_slot, end_slot);
        lemma_ascii_bytes_valid_utf8(bytes@);
    }
    match bytes_to_string(bytes.as_slice()) {
        Some(s) => {
            proof {
                vstd::utf8::decode_utf8_encode_utf8(bytes@);
            }
            s
        },
        None => vstd::pervasive::unreached(),
    }
}

impl ProverSession {
    /// A fresh session over a slot range.
    pub fn new(start_slot: u64, end_slot: u64) -> (s: ProverSession)
        ensures
            s.start_slot == start_slot,
            s.end_slot == end_slot,
            s.phase is Idle,
    {
        ProverSession { start_slot, end_slot, phase: ProverPhase::Idle }
    }

    /// Start a dry run: the runner must now execute the program.
    pub fn begin_execute(&mut self)
        requires
            old(self).phase is Idle,
        ensures
            final(self).phase is Executing,
            final(self).start_slot == old(self).start_slot,
            final(self).end_slot == old(self).end_slot,
    {
        self.phase = ProverPhase::Executing;
    }

    /// The runner's execution finished with these output bytes. They must
    /// decode as a public commitment; any malformed output is the single
    /// `ExecutionFailed` fault.
    pub fn execution_completed(&mut self, output: &[u8]) -> (r: Result<
        PublicCommitments,
        ProverError,
    >)
        requires
            old(self).phase is Executing,
        ensures
            final(self).start_slot == old(self).start_slot,
            final(self).end_slot == old(self).end_slot,
            match spec_decode_public_commitments(output@) {
                Ok(v) => {
                    &&& r matches Ok(c) && c@ == v
                    &&& final(self).phase is Done
                },
                Err(_) => {
                    &&& r == Err::<PublicCommitments, ProverError>(ProverError::ExecutionFailed)
                    &&& final(self).phase matches ProverPhase::Failed(e) && e
                        == ProverError::ExecutionFailed
                },
            },
    {
        match decode_public_commitments(output) {
            Ok(c) => {
                self.phase = ProverPhase::Done;
                Ok(c)
            },
            Err(_) => {
                self.phase = ProverPhase::Failed(ProverError::ExecutionFailed);
                Err(ProverError::ExecutionFailed)
            },
        }
    }

    /// The runner's execution failed inside the backend.
    pub fn execution_failed(&mut self)
        requires
            old(self).phase is Executing,
        ensures
            final(self).phase matches ProverPhase::Failed(e) && e == ProverError::ExecutionFailed,
            final(self).start_slot == old(self).start_slot,
            final(self).end_slot == old(self).end_slot,
    {
        self.phase = ProverPhase::Failed(ProverError::ExecutionFailed);
    }

    /// Start a proving run: the runner must first generate (or fetch cached)
    /// proving keys.
    pub fn begin_prove(&mut self, mode: ProofMode)
        requires
            old(self).phase is Idle,
        ensures
            final(self).phase matches ProverPhase::SettingUp(m) && m == mode,
            final(self).start_slot == old(self).start_slot,
            final(self).end_slot == old(self).end_slot,
    {
        self.phase = ProverPhase::SettingUp(mode);
    }

    /// Key setup finished with this verification key: proving may start.
    pub fn setup_completed(&mut self, verification_key: [u8; 32])
        requires
            old(self).phase is SettingUp,
        ensures
            final(self).phase matches ProverPhase::Proving(m, vk) && m == old(
                self,
            ).phase->SettingUp_0 && vk == verification_key,
            final(self).start_slot == old(self).start_slot,
            final(self).end_slot == old(self).end_slot,
    {
        let mode = match self.phase {
            ProverPhase::SettingUp(m) => m,
            _ => vstd::pervasive::unreached(),
        };
        self.phase = ProverPhase::Proving(mode, verification_key);
    }

    /// Key setup failed.
    pub fn setup_failed(&mut self)
        requires
            old(self).phase is SettingUp,
        ensures
            final(self).phase matches ProverPhase::Failed(e) && e == ProverError::SetupFailed,
            final(self).start_slot == old(self).start_slot,
            final(self).end_slot == old(self).end_slot,
    {
        self.phase = ProverPhase::Failed(ProverError::SetupFailed);
    }

    /// Proving finished: assemble the envelope that is published. The
    /// identifier names the slot range, the kind is the consensus proof, and
    /// the payload carries the mode's schema version, the proof bytes, the
    /// public values, and the verification key of the setup step.
    pub fn proving_completed(&mut self, proof: Vec<u8>, public_value: Vec<u8>) -> (r: ZkProof)
        requires
            old(self).phase is Proving,
        ensures
            final(self).phase is Done,
            final(self).start_slot == old(self).start_slot,
            final(self).end_slot == old(self).end_slot,
            encode_utf8(r@.identifier) == spec_identifier_bytes(
                old(self).start_slot,
                old(self).end_slot,
            ),
            r@.proof_kind == ProofKind::SolanaConsensusProof,
            r@.proof_data matches crate::types::ProofDataView::SP1(p) && p.version
                == spec_mode_version(old(self).phase->Proving_0) && p.proof == proof@
                && p.public_value == public_value@ && p.verification_key == old(
                self,
            ).phase->Proving_1@,
            r@.wf(),
    {
        let (mode, verification_key) = match self.phase {
            ProverPhase::Proving(m, vk) => (m, vk),
            _ => vstd::pervasive::unreached(),
        };
        let identifier = proof_identifier(self.start_slot, self.end_slot);
        let id_bytes_len = identifier.as_str().as_bytes().len();
        let proof_len = proof.len();
        let public_value_len = public_value.len();
        proof {
            assert(id_bytes_len == encode_utf8(identifier@).len());
            assert(proof_len == proof@.len());
            assert(public_value_len == public_value@.len());
        }
        let version = match mode {
            ProofMode::Compressed => 1,
            ProofMode::Groth16 => 2,
        };
        self.phase = ProverPhase::Done;
        ZkProof {
            identifier,
            proof_kind: ProofKind::SolanaConsensusProof,
            proof_data: ProofData::SP1(
                SP1Proof { version, proof, public_value, verification_key },
            ),
        }
    }

    /// Proving failed inside the backend.
    pub fn proving_failed(&mut self)
        requires
            old(self).phase is Proving,
        ensures
            final(self).phase matches ProverPhase::Failed(e) && e == ProverError::ProvingFailed,
            final(self).start_slot == old(self).start_slot,
            final(self).end_slot == old(self).end_slot,
    {
        self.phase = ProverPhase::Failed(ProverError::ProvingFailed);
    }
}

} // verus!
