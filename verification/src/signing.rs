//! The proposal signing pipeline: the local governor-key backend, the
//! on-chain voting backend, and the bridge commands both feed into the
//! per-bridge queues.
//!
//! The cryptographic primitives are consumed as black boxes: Keccak digests
//! and the deterministic ECDSA signature are named, uninterpreted functions
//! of their inputs, and every contract downstream speaks of those names.

use vstd::prelude::*;

use tiny_keccak::Hasher;

use crate::bytes::{copy_bytes, push_all, push_u32_be, read_u32_be, spec_u32_be, spec_u32_from_be};
use crate::proposals::{
    clone_resource_id, resource_id_eq, AnchorUpdateProposal, ResourceId, ResourceIdView,
    spec_proposal_bytes, spec_proposal_wf,
};
use crate::queue::{spec_enqueue, QueueId, QueueIdView, QueueItem, QueueItemView, QueueStateView};
use crate::store::MemStore;
use crate::RelayerError;

verus! {

/// The 32-byte Keccak-256 digest of a byte run; a function of the bytes
/// alone.
pub uninterp spec fn spec_keccak256(b: Seq<u8>) -> Seq<u8>;

/// The 64-byte Keccak-512 digest of a byte run; a function of the bytes
/// alone.
pub uninterp spec fn spec_keccak512(b: Seq<u8>) -> Seq<u8>;

/// The 65-byte recoverable ECDSA signature of a 32-byte digest under a
/// secp256k1 key; RFC 6979 makes it a function of key and digest alone.
pub uninterp spec fn spec_ecdsa_sign(key: Seq<u8>, digest: Seq<u8>) -> Seq<u8>;

/// Whether signing succeeds for a key and digest. Key parsing rejects a
/// byte run that is no valid nonzero scalar, and RFC 6979 draws its nonce
/// deterministically, so success too is a function of key and digest
/// alone.
pub uninterp spec fn spec_ecdsa_sign_ok(key: Seq<u8>, digest: Seq<u8>) -> bool;

/// Relies on ethers-core's `keccak256`: the 32-byte Keccak-256 digest of
/// the input, depending on the input bytes alone.
#[verifier::external_body]
fn keccak256(data: &Vec<u8>) -> (r: Vec<u8>)
    ensures
        r@ == spec_keccak256(data@),
        r@.len() == 32,
{
    ethers_core::utils::keccak256(data.as_slice()).to_vec()
}

/// Relies on tiny-keccak's `Keccak::v512`: the 64-byte Keccak-512 digest of
/// the input, depending on the input bytes alone.
#[verifier::external_body]
fn keccak512(data: &Vec<u8>) -> (r: Vec<u8>)
    ensures
        r@ == spec_keccak512(data@),
        r@.len() == 64,
{
    let mut output = vec![0u8; 64];
    let mut hasher = tiny_keccak::Keccak::v512();
    hasher.update(data.as_slice());
    hasher.finalize(&mut output);
    output
}

/// Relies on ethers-signers' `Wallet::from_bytes` and `Wallet::sign_hash`:
/// deterministic ECDSA over secp256k1 (RFC 6979), so the 65-byte signature
/// depends on the key and the digest alone. `None` comes only of a key
/// that is no valid nonzero secp256k1 scalar or of a signing failure
/// inside the curve library; both are themselves functions of key and
/// digest alone, so success carries its own name.
#[verifier::external_body]
fn ecdsa_sign(key: &Vec<u8>, digest: &Vec<u8>) -> (r: Option<Vec<u8>>)
    requires
        key@.len() == 32,
        digest@.len() == 32,
    ensures
        (r is Some) == spec_ecdsa_sign_ok(key@, digest@),
        r matches Some(s) ==> s@ == spec_ecdsa_sign(key@, digest@) && s@.len() == 65,
{
    let wallet = match ethers_signers::LocalWallet::from_bytes(key.as_slice()) {
        Result::Ok(w) => w,
        Result::Err(_) => {
            return Option::None;
        },
    };
    let hash = ethers_core::types::H256::from_slice(digest.as_slice());
    match wallet.sign_hash(hash) {
        Result::Ok(sig) => Option::Some(sig.to_vec()),
        Result::Err(_) => Option::None,
    }
}

/// The signature the local-signer backend produces for a proposal: the
/// deterministic ECDSA signature of the Keccak-256 digest of the
/// proposal's wire form.
pub open spec fn spec_proposal_signature(key: Seq<u8>, p: crate::proposals::AnchorUpdateProposalView) -> Seq<u8> {
    spec_ecdsa_sign(key, spec_keccak256(spec_proposal_bytes(p)))
}

/// Whether the local signer can sign a proposal under a governor key:
/// success on the Keccak-256 digest of the proposal's wire form.
pub open spec fn spec_proposal_sign_ok(
    key: Seq<u8>,
    p: crate::proposals::AnchorUpdateProposalView,
) -> bool {
    spec_ecdsa_sign_ok(key, spec_keccak256(spec_proposal_bytes(p)))
}

/// Deterministic signing: the local-signer backend produces identical
/// signatures for identical inputs — the signature is a function of the
/// governor key and the proposal alone.
pub proof fn lemma_deterministic_signing(
    key1: Seq<u8>,
    key2: Seq<u8>,
    p1: crate::proposals::AnchorUpdateProposalView,
    p2: crate::proposals::AnchorUpdateProposalView,
)
    requires
        key1 == key2,
        p1 == p2,
    ensures
        spec_proposal_signature(key1, p1) == spec_proposal_signature(key2, p2),
{
}

/// Signs the canonical wire form of a proposal with the governor key.
pub fn sign_proposal(private_key: &Vec<u8>, proposal: &AnchorUpdateProposal) -> (r: Option<
    Vec<u8>,
>)
    requires
        private_key@.len() == 32,
        spec_proposal_wf(proposal@),
    ensures
        (r is Some) == spec_proposal_sign_ok(private_key@, proposal@),
        r matches Some(s) ==> s@ == spec_proposal_signature(private_key@, proposal@) && s@.len()
            == 65,
{
    let bytes = proposal.to_bytes();
    let digest = keccak256(&bytes);
    ecdsa_sign(private_key, &digest)
}

/// The command a signature bridge executes: proposal bytes plus the
/// governor signature over them.
#[derive(Debug)]
pub enum BridgeCommand {
    ExecuteProposalWithSignature { data: Vec<u8>, signature: Vec<u8> },
}

/// The mathematical shape of a bridge command.
pub enum BridgeCommandView {
    ExecuteProposalWithSignature { data: Seq<u8>, signature: Seq<u8> },
}

impl View for BridgeCommand {
    type V = BridgeCommandView;

    open spec fn view(&self) -> BridgeCommandView {
        match self {
            BridgeCommand::ExecuteProposalWithSignature { data, signature } => {
                BridgeCommandView::ExecuteProposalWithSignature {
                    data: data@,
                    signature: signature@,
                }
            },
        }
    }
}

/// The queue payload of a bridge command: the data length in big-endian,
/// the data, then the signature.
pub open spec fn spec_command_bytes(data: Seq<u8>, signature: Seq<u8>) -> Seq<u8> {
    spec_u32_be(data.len() as u32) + data + signature
}

/// Reads a bridge command back from its queue payload.
pub open spec fn spec_decode_command(b: Seq<u8>) -> Option<BridgeCommandView> {
    if b.len() < 4 {
        None
    } else {
        let n = spec_u32_from_be(b[0], b[1], b[2], b[3]);
        if b.len() < 4 + n {
            None
        } else {
            Some(
                BridgeCommandView::ExecuteProposalWithSignature {
                    data: b.subrange(4, 4 + n),
                    signature: b.subrange(4 + n, b.len() as int),
                },
            )
        }
    }
}

/// Decoding the queue payload of a bridge command yields the command back.
pub proof fn lemma_command_round_trip(data: Seq<u8>, signature: Seq<u8>)
    requires
        data.len() <= 0xffff_ffff,
    ensures
        spec_decode_command(spec_command_bytes(data, signature)) == Some(
            BridgeCommandView::ExecuteProposalWithSignature { data, signature },
        ),
{
    let b = spec_command_bytes(data, signature);
    crate::bytes::lemma_u32_be_round_trip(data.len() as u32);
    assert(b[0] == spec_u32_be(data.len() as u32)[0]);
    assert(b[1] == spec_u32_be(data.len() as u32)[1]);
    assert(b[2] == spec_u32_be(data.len() as u32)[2]);
    assert(b[3] == spec_u32_be(data.len() as u32)[3]);
    assert(b.subrange(4, 4 + data.len() as int) =~= data);
    assert(b.subrange(4 + data.len() as int, b.len() as int) =~= signature);
}

/// Builds the queue payload of a bridge command.
pub fn encode_bridge_command(data: &Vec<u8>, signature: &Vec<u8>) -> (r: Vec<u8>)
    requires
        data@.len() <= 0xffff_ffff,
    ensures
        r@ == spec_command_bytes(data@, signature@),
{
    let mut out: Vec<u8> = Vec::new();
    push_u32_be(&mut out, data.len() as u32);
    push_all(&mut out, data);
    push_all(&mut out, signature);
    proof {
        assert(out@ =~= spec_command_bytes(data@, signature@));
    }
    out
}

/// Reads a bridge command back from a queue payload; `None` on a malformed
/// byte run.
pub fn decode_bridge_command(b: &Vec<u8>) -> (r: Option<BridgeCommand>)
    ensures
        match r {
            Option::Some(c) => Some(c@) == spec_decode_command(b@),
            Option::None => spec_decode_command(b@) is None,
        },
{
    let total = b.len();
    if total < 4 {
        return Option::None;
    }
    let n = read_u32_be(b, 0);
    if n as usize > total - 4 {
        return Option::None;
    }
    let n = n as usize;
    let mut data: Vec<u8> = Vec::new();
    let mut i: usize = 0;
    while i < n
        invariant
            n + 4 <= total,
            total == b@.len(),
            i <= n,
            data@ == b@.subrange(4, 4 + i as int),
        decreases n - i,
    {
        data.push(b[4 + i]);
        proof {
            assert(data@ =~= b@.subrange(4, 4 + (i + 1)));
        }
        i += 1;
    }
    let mut signature: Vec<u8> = Vec::new();
    let mut j: usize = 4 + n;
    while j < total
        invariant
            4 + n <= j <= total,
            total == b@.len(),
            signature@ == b@.subrange(4 + n as int, j as int),
        decreases total - j,
    {
        signature.push(b[j]);
        proof {
            assert(signature@ =~= b@.subrange(4 + n as int, j + 1));
        }
        j += 1;
    }
    Option::Some(BridgeCommand::ExecuteProposalWithSignature { data, signature })
}

/// The 64-byte queue key of a transaction payload: its Keccak-512 digest.
pub fn payload_key(payload: &Vec<u8>) -> (r: Vec<u8>)
    ensures
        r@ == spec_keccak512(payload@),
        r@.len() == 64,
{
    keccak512(payload)
}

/// The 64-byte queue key of a bridge command: the Keccak-512 digest of the
/// data and the signature run together.
pub fn bridge_command_key(data: &Vec<u8>, signature: &Vec<u8>) -> (r: Vec<u8>)
    ensures
        r@ == spec_keccak512(data@ + signature@),
        r@.len() == 64,
{
    let mut joined = copy_bytes(data);
    push_all(&mut joined, signature);
    keccak512(&joined)
}

/// A signing backend that signs proposals with the governor's private key
/// and enqueues the signed command for the target's signature bridge.
pub struct MockedProposalSigningBackend {
    /// The resource ids of the signature bridges this governor key rules.
    pub signature_bridges: Vec<ResourceId>,
    /// The governor's 32-byte secp256k1 private key; one key rules every
    /// bridge in the set.
    pub private_key: Vec<u8>,
}

impl MockedProposalSigningBackend {
    /// The backend's own well-formedness: a key of the curve's width.
    pub open spec fn wf(self) -> bool {
        self.private_key@.len() == 32
    }

    /// True when the backend knows the signature bridge of resource id `r`.
    pub open spec fn spec_known_bridge(self, r: ResourceIdView) -> bool {
        exists|i: int|
            0 <= i < self.signature_bridges@.len() && #[trigger] self.signature_bridges@[i]@ == r
    }

    /// Builds the backend from the governor key and the known bridges.
    pub fn new(signature_bridges: Vec<ResourceId>, private_key: Vec<u8>) -> (r:
        MockedProposalSigningBackend)
        requires
            private_key@.len() == 32,
        ensures
            r.wf(),
            r.signature_bridges == signature_bridges,
            r.private_key == private_key,
    {
        MockedProposalSigningBackend { signature_bridges, private_key }
    }

    /// True exactly when the proposal's resource id names a known bridge.
    #[verifier::loop_isolation(false)]
    pub fn can_handle_proposal(&self, proposal: &AnchorUpdateProposal) -> (r: bool)
        ensures
            r == self.spec_known_bridge(proposal@.header.resource_id),
    {
        let n = self.signature_bridges.len();
        let mut i: usize = 0;
        while i < n
            invariant
                i <= n,
                forall|j: int|
                    0 <= j < i ==> #[trigger] self.signature_bridges@[j]@
                        != proposal@.header.resource_id,
            decreases n - i,
        {
            if resource_id_eq(&self.signature_bridges[i], &proposal.header.resource_id) {
                return true;
            }
            i += 1;
        }
        proof {
            if self.spec_known_bridge(proposal@.header.resource_id) {
                let w = choose|w: int|
                    0 <= w < self.signature_bridges@.len() && #[trigger] self.signature_bridges@[
                        w
                    ]@ == proposal@.header.resource_id;
                assert(false);
            }
        }
        false
    }

    /// Signs the proposal and enqueues the execute command under the
    /// bridge's queue. The command's key is derived from its payload, so
    /// handling the same proposal twice leaves one queued command.
    pub fn handle_proposal(
        &self,
        store: &mut MemStore,
        proposal: &AnchorUpdateProposal,
        now: u64,
        ttl_ms: u64,
    ) -> (res: Result<(), RelayerError>)
        requires
            self.wf(),
            old(store).wf(),
            spec_proposal_wf(proposal@),
            spec_proposal_bytes(proposal@).len() <= 0xffff_ffff,
        ensures
            final(store).wf(),
            (res is Ok) == spec_proposal_sign_ok(self.private_key@, proposal@),
            res is Ok ==> ({
                let data = spec_proposal_bytes(proposal@);
                let signature = spec_proposal_signature(self.private_key@, proposal@);
                let payload = spec_command_bytes(data, signature);
                let bq = (QueueIdView::Bridge { bridge: proposal@.header.resource_id });
                final(store).spec_queue(bq) == spec_enqueue(
                    old(store).spec_queue(bq),
                    (QueueItemView {
                        key: spec_keccak512(data + signature),
                        payload,
                        state: QueueStateView::Pending,
                        created_at: now,
                        ttl_ms,
                    }),
                )
            }),
            res is Err ==> *final(store) == *old(store),
            res matches Err(e) ==> e == RelayerError::InvalidSigningKey,
            forall|q2: QueueIdView|
                !(q2 == (QueueIdView::Bridge { bridge: proposal@.header.resource_id }))
                    ==> #[trigger] final(store).spec_queue(q2) == old(store).spec_queue(q2),
            final(store).leaves == old(store).leaves,
            final(store).encrypted_outputs == old(store).encrypted_outputs,
            final(store).checkpoints == old(store).checkpoints,
            final(store).deposit_blocks == old(store).deposit_blocks,
            final(store).event_hashes == old(store).event_hashes,
            final(store).proposals == old(store).proposals,
    {
        let data = proposal.to_bytes();
        let signature = match sign_proposal(&self.private_key, proposal) {
            Option::Some(s) => s,
            Option::None => {
                return Result::Err(RelayerError::InvalidSigningKey);
            },
        };
        let key = bridge_command_key(&data, &signature);
        let payload = encode_bridge_command(&data, &signature);
        let bridge = clone_resource_id(&proposal.header.resource_id);
        let q = QueueId::Bridge { bridge };
        let item = QueueItem::new(key, payload, now, ttl_ms);
        store.enqueue_item(&q, item)
    }
}

/// Configuration of the on-chain voting backend: the signing-rules
/// contract's address and the 32-byte job id of the first voting phase.
#[derive(Clone, Debug)]
pub struct DkgSigningRulesConfig {
    /// The 20-byte address of the signing-rules contract on its chain.
    pub address: Vec<u8>,
    /// The 32-byte id of the first voting phase's job.
    pub phase1_job_id: Vec<u8>,
}

/// Configuration of the local-signer backend: the governor's private key.
#[derive(Clone, Debug)]
pub struct MockedProposalSigningBackendConfig {
    /// The governor's 32-byte secp256k1 private key.
    pub private_key: Vec<u8>,
}

/// The signing backend a contract is configured with.
#[derive(Clone, Debug)]
pub enum ProposalSigningBackendConfig {
    /// Vote through the signing-rules contract.
    Dkg(DkgSigningRulesConfig),
    /// Sign locally with the governor's private key.
    Mocked(MockedProposalSigningBackendConfig),
}

/// A signing backend that submits proposals to the signing-rules contract
/// for on-chain voting; authority resides on chain, so it accepts every
/// proposal.
pub struct SigningRulesBackend {
    /// The 32-byte id of the first voting phase's job.
    pub phase1_job_id: Vec<u8>,
    /// The chain this backend votes from; its transaction queue carries
    /// the vote calls.
    pub src_chain_id: u32,
}

/// The canonical form of a vote call, from which its queue key is derived:
/// the job id, the length-prefixed phase-1 details, then the proposal
/// bytes.
pub open spec fn spec_vote_call_bytes(
    phase1_job_id: Seq<u8>,
    details: Seq<u8>,
    proposal: Seq<u8>,
) -> Seq<u8> {
    phase1_job_id + spec_u32_be(details.len() as u32) + details + proposal
}

impl SigningRulesBackend {
    /// Builds the backend from its contract configuration.
    pub fn new(config: &DkgSigningRulesConfig, src_chain_id: u32) -> (r: SigningRulesBackend)
        ensures
            r.phase1_job_id@ == config.phase1_job_id@,
            r.src_chain_id == src_chain_id,
    {
        SigningRulesBackend {
            phase1_job_id: copy_bytes(&config.phase1_job_id),
            src_chain_id,
        }
    }

    /// Always true: the voting contract decides on chain.
    pub fn can_handle_proposal(&self, _proposal: &AnchorUpdateProposal) -> (r: bool)
        ensures
            r == true,
    {
        true
    }

    /// Builds the vote call for the proposal and enqueues it on this
    /// chain's transaction queue; a call already queued under its key is
    /// left as it is.
    pub fn handle_proposal(
        &self,
        store: &mut MemStore,
        proposal: &AnchorUpdateProposal,
        now: u64,
        ttl_ms: u64,
    ) -> (res: Result<(), RelayerError>)
        requires
            old(store).wf(),
            spec_proposal_wf(proposal@),
        ensures
            final(store).wf(),
            res is Ok,
            ({
                let payload = spec_vote_call_bytes(
                    self.phase1_job_id@,
                    Seq::new(32, |i: int| 1u8),
                    spec_proposal_bytes(proposal@),
                );
                let tq = (QueueIdView::Evm { chain_id: self.src_chain_id as u64 });
                final(store).spec_queue(tq) == spec_enqueue(
                    old(store).spec_queue(tq),
                    (QueueItemView {
                        key: spec_keccak512(payload),
                        payload,
                        state: QueueStateView::Pending,
                        created_at: now,
                        ttl_ms,
                    }),
                )
            }),
            forall|q2: QueueIdView|
                !(q2 == (QueueIdView::Evm { chain_id: self.src_chain_id as u64 }))
                    ==> #[trigger] final(store).spec_queue(q2) == old(store).spec_queue(q2),
            final(store).leaves == old(store).leaves,
            final(store).encrypted_outputs == old(store).encrypted_outputs,
            final(store).checkpoints == old(store).checkpoints,
            final(store).deposit_blocks == old(store).deposit_blocks,
            final(store).event_hashes == old(store).event_hashes,
            final(store).proposals == old(store).proposals,
    {
        let data = proposal.to_bytes();
        let mut details: Vec<u8> = Vec::new();
        let mut i: usize = 0;
        while i < 32
            invariant
                i <= 32,
                details@ == Seq::new(i as nat, |j: int| 1u8),
            decreases 32 - i,
        {
            details.push(1);
            proof {
                assert(details@ =~= Seq::new((i + 1) as nat, |j: int| 1u8));
            }
            i += 1;
        }
        let mut payload = copy_bytes(&self.phase1_job_id);
        push_u32_be(&mut payload, details.len() as u32);
        push_all(&mut payload, &details);
        push_all(&mut payload, &data);
        proof {
            assert(payload@ =~= spec_vote_call_bytes(
                self.phase1_job_id@,
                Seq::new(32, |j: int| 1u8),
                spec_proposal_bytes(proposal@),
            ));
        }
        let key = keccak512(&payload);
        let q = QueueId::Evm { chain_id: self.src_chain_id as u64 };
        let item = QueueItem::new(key, payload, now, ttl_ms);
        store.enqueue_item(&q, item)
    }
}

/// The signing backend a watcher was wired with, if any.
pub enum ProposalSigningBackendSelector {
    /// Governance relaying is off or the contract names no backend.
    Disabled,
    /// The local governor-key signer.
    Mocked(MockedProposalSigningBackend),
    /// The on-chain voting contract.
    Dkg(SigningRulesBackend),
}

/// Wires the signing backend a contract is configured with: nothing when
/// governance relaying is off or no backend is named, the voting backend
/// for a signing-rules configuration, and the local signer for a governor
/// key.
pub fn make_proposal_signing_backend(
    governance_relay: bool,
    config: Option<ProposalSigningBackendConfig>,
    known_bridges: Vec<ResourceId>,
    src_chain_id: u32,
) -> (r: ProposalSigningBackendSelector)
    requires
        config matches Some(ProposalSigningBackendConfig::Mocked(m)) ==> m.private_key@.len()
            == 32,
    ensures
        !governance_relay ==> r is Disabled,
        governance_relay ==> match config {
            Option::None => r is Disabled,
            Option::Some(ProposalSigningBackendConfig::Dkg(c)) => r matches
                ProposalSigningBackendSelector::Dkg(b) && b.phase1_job_id@ == c.phase1_job_id@
                && b.src_chain_id == src_chain_id,
            Option::Some(ProposalSigningBackendConfig::Mocked(m)) => r matches
                ProposalSigningBackendSelector::Mocked(b) && b.private_key@ == m.private_key@
                && b.signature_bridges == known_bridges,
        },
{
    if !governance_relay {
        return ProposalSigningBackendSelector::Disabled;
    }
    match config {
        Option::Some(ProposalSigningBackendConfig::Dkg(c)) => {
            ProposalSigningBackendSelector::Dkg(SigningRulesBackend::new(&c, src_chain_id))
        },
        Option::Some(ProposalSigningBackendConfig::Mocked(m)) => {
            ProposalSigningBackendSelector::Mocked(
                MockedProposalSigningBackend::new(known_bridges, m.private_key),
            )
        },
        Option::None => ProposalSigningBackendSelector::Disabled,
    }
}

} // verus!
