//! The event watcher engine's decision core: which block range one polling
//! round covers, how events are rendered into the digest the event-hash set
//! stores, and the laws that make checkpoints move forward.
//!
//! The surrounding loop fetches logs, sorts them by position and sleeps;
//! the functions here decide and record.

use vstd::prelude::*;

use crate::bytes::{push_all, push_u32_be, spec_u32_be};

verus! {

/// Per-contract watcher configuration.
#[derive(Clone, Copy, Debug, PartialEq, Eq, Structural)]
pub struct EventsWatcherConfig {
    /// Whether the watcher runs at all.
    pub enabled: bool,
    /// How long to sleep when the chain has nothing new, in milliseconds.
    pub polling_interval_ms: u64,
    /// The most blocks one polling round may cover.
    pub max_blocks_per_step: u64,
    /// How many head blocks to leave unread against reorgs.
    pub confirmations: u64,
    /// Whether the HTTP surface may query this contract's cached data.
    pub enable_data_query: bool,
}

/// The head block a watcher may read up to: the chain head minus the
/// confirmation depth.
pub open spec fn spec_confirmed_head(head: u64, confirmations: u64) -> u64 {
    if head >= confirmations {
        (head - confirmations) as u64
    } else {
        0
    }
}

/// The block range one polling round covers, given the last processed
/// block and the chain head: `None` when nothing confirmed lies beyond the
/// checkpoint, else from the next block up to at most `max_blocks_per_step`
/// further and never past the confirmed head.
pub open spec fn spec_next_block_range(
    last: u64,
    head: u64,
    max_blocks_per_step: u64,
    confirmations: u64,
) -> Option<(u64, u64)> {
    let confirmed = spec_confirmed_head(head, confirmations);
    let to = if confirmed <= last || confirmed - last > max_blocks_per_step {
        (last + max_blocks_per_step) as u64
    } else {
        confirmed
    };
    if to <= last || confirmed <= last {
        None
    } else {
        Some(((last + 1) as u64, to))
    }
}

/// Computes the block range of one polling round.
pub fn next_block_range(last: u64, head: u64, config: &EventsWatcherConfig) -> (r: Option<
    (u64, u64),
>)
    ensures
        r == spec_next_block_range(last, head, config.max_blocks_per_step, config.confirmations),
{
    let confirmed = if head >= config.confirmations {
        head - config.confirmations
    } else {
        0
    };
    if confirmed <= last {
        return Option::None;
    }
    let to = if confirmed - last > config.max_blocks_per_step {
        last + config.max_blocks_per_step
    } else {
        confirmed
    };
    if to <= last {
        Option::None
    } else {
        Option::Some((last + 1, to))
    }
}

/// The checkpoint never moves backwards: whenever a polling round covers a
/// range, its upper end lies strictly beyond the last processed block, so
/// setting the checkpoint to it only increases it.
pub proof fn lemma_checkpoint_monotone(
    last: u64,
    head: u64,
    max_blocks_per_step: u64,
    confirmations: u64,
)
    ensures
        spec_next_block_range(last, head, max_blocks_per_step, confirmations) matches Some(r)
            ==> r.1 > last && r.0 == last + 1,
{
}

/// A watcher over a chain with confirmed blocks beyond its checkpoint
/// advances toward the head, events or none: the round's upper end moves
/// past the checkpoint yet never past the confirmed head.
pub proof fn lemma_watcher_advances_toward_head(
    last: u64,
    head: u64,
    max_blocks_per_step: u64,
    confirmations: u64,
)
    requires
        max_blocks_per_step > 0,
        spec_confirmed_head(head, confirmations) > last,
    ensures
        spec_next_block_range(last, head, max_blocks_per_step, confirmations) matches Some(r)
            && last < r.1 <= spec_confirmed_head(head, confirmations),
{
}

/// One decoded contract event, as the handlers see it.
#[derive(Debug)]
pub enum EvmEvent {
    /// A leaf insertion: the new commitment and its index.
    Insertion { leaf_index: u32, commitment: Vec<u8> },
    /// A new commitment with its encrypted output.
    NewCommitment { index: u32, commitment: Vec<u8>, encrypted_output: Vec<u8> },
    /// A proposal signed by the governing set: proposal bytes and
    /// signature.
    ProposalSigned { data: Vec<u8>, signature: Vec<u8> },
}

/// The mathematical shape of a contract event.
pub enum EvmEventView {
    Insertion { leaf_index: u32, commitment: Seq<u8> },
    NewCommitment { index: u32, commitment: Seq<u8>, encrypted_output: Seq<u8> },
    ProposalSigned { data: Seq<u8>, signature: Seq<u8> },
}

impl View for EvmEvent {
    type V = EvmEventView;

    open spec fn view(&self) -> EvmEventView {
        match self {
            EvmEvent::Insertion { leaf_index, commitment } => EvmEventView::Insertion {
                leaf_index: *leaf_index,
                commitment: commitment@,
            },
            EvmEvent::NewCommitment { index, commitment, encrypted_output } => {
                EvmEventView::NewCommitment {
                    index: *index,
                    commitment: commitment@,
                    encrypted_output: encrypted_output@,
                }
            },
            EvmEvent::ProposalSigned { data, signature } => EvmEventView::ProposalSigned {
                data: data@,
                signature: signature@,
            },
        }
    }
}

/// The canonical serialization of an event, stored in the event-hash set
/// to make handling idempotent: a variant tag, then each field, byte runs
/// length-prefixed.
pub open spec fn spec_event_bytes(e: EvmEventView) -> Seq<u8> {
    match e {
        EvmEventView::Insertion { leaf_index, commitment } => seq![0u8] + spec_u32_be(leaf_index)
            + spec_u32_be(commitment.len() as u32) + commitment,
        EvmEventView::NewCommitment { index, commitment, encrypted_output } => seq![1u8]
            + spec_u32_be(index) + spec_u32_be(commitment.len() as u32) + commitment + spec_u32_be(
            encrypted_output.len() as u32,
        ) + encrypted_output,
        EvmEventView::ProposalSigned { data, signature } => seq![2u8] + spec_u32_be(
            data.len() as u32,
        ) + data + spec_u32_be(signature.len() as u32) + signature,
    }
}

/// Serializes an event into the digest bytes the event-hash set stores.
pub fn encode_event(e: &EvmEvent) -> (r: Vec<u8>)
    requires
        spec_event_small(e@),
    ensures
        r@ == spec_event_bytes(e@),
{
    let mut out: Vec<u8> = Vec::new();
    match e {
        EvmEvent::Insertion { leaf_index, commitment } => {
            out.push(0);
            push_u32_be(&mut out, *leaf_index);
            push_u32_be(&mut out, commitment.len() as u32);
            push_all(&mut out, commitment);
        },
        EvmEvent::NewCommitment { index, commitment, encrypted_output } => {
            out.push(1);
            push_u32_be(&mut out, *index);
            push_u32_be(&mut out, commitment.len() as u32);
            push_all(&mut out, commitment);
            push_u32_be(&mut out, encrypted_output.len() as u32);
            push_all(&mut out, encrypted_output);
        },
        EvmEvent::ProposalSigned { data, signature } => {
            out.push(2);
            push_u32_be(&mut out, data.len() as u32);
            push_all(&mut out, data);
            push_u32_be(&mut out, signature.len() as u32);
            push_all(&mut out, signature);
        },
    }
    proof {
        assert(out@ =~= spec_event_bytes(e@));
    }
    out
}

/// Every byte run of the event fits a 32-bit length prefix.
pub open spec fn spec_event_small(e: EvmEventView) -> bool {
    match e {
        EvmEventView::Insertion { commitment, .. } => commitment.len() <= 0xffff_ffff,
        EvmEventView::NewCommitment { commitment, encrypted_output, .. } => commitment.len()
            <= 0xffff_ffff && encrypted_output.len() <= 0xffff_ffff,
        EvmEventView::ProposalSigned { data, signature } => data.len() <= 0xffff_ffff
            && signature.len() <= 0xffff_ffff,
    }
}


/// The watcher of the distributed key generation pallet's events.
#[derive(Clone, Copy, Debug, Default)]
pub struct DKGEventWatcher;

impl DKGEventWatcher {
    /// The pallet this watcher filters finalized-block events by.
    pub fn pallet_name(&self) -> (r: &'static str)
        ensures
            r@ == "DKG"@,
    {
        "DKG"
    }
}

/// The watcher of the proposal-handler pallet's events; its signed
/// proposals feed the signature bridges.
#[derive(Clone, Copy, Debug, Default)]
pub struct DKGProposalHandlerWatcher;

impl DKGProposalHandlerWatcher {
    /// The pallet this watcher filters finalized-block events by.
    pub fn pallet_name(&self) -> (r: &'static str)
        ensures
            r@ == "DKGProposalHandler"@,
    {
        "DKGProposalHandler"
    }
}

/// The poller of execution-layer block headers for the light client; the
/// polling loop itself performs network work and lives outside the
/// library.
#[derive(Clone, Copy, Debug, Default)]
pub struct LightClientWatcher;

impl LightClientWatcher {
    /// The label this watcher logs under.
    pub fn tag(&self) -> (r: &'static str)
        ensures
            r@ == "Block Watcher"@,
    {
        "Block Watcher"
    }
}

/// The EVM encrypted-output handler; its event logic is the digest-gated
/// encrypted-output handler.
#[derive(Clone, Copy, Debug, Default)]
pub struct EncryptedOutputHandler;

/// The Substrate leaves watcher; its event logic is the Substrate leaf
/// batch handler.
#[derive(Clone, Copy, Debug, Default)]
pub struct SubstrateVAnchorLeavesWatcher;

/// The Substrate encrypted-output handler; its event logic is the
/// Substrate output pair handler.
#[derive(Clone, Copy, Debug, Default)]
pub struct SubstrateVAnchorEncryptedOutputHandler;

impl SubstrateVAnchorEncryptedOutputHandler {
    /// True when the finalized block's events hold a transaction event
    /// this handler takes.
    #[verifier::loop_isolation(false)]
    pub fn can_handle_events(&self, events: &Vec<EvmEvent>) -> (r: bool)
        ensures
            r == (exists|i: int|
                0 <= i < events@.len() && (#[trigger] events@[i]@) is NewCommitment),
    {
        let n = events.len();
        let mut i: usize = 0;
        while i < n
            invariant
                i <= n,
                forall|j: int| 0 <= j < i ==> !((#[trigger] events@[j]@) is NewCommitment),
            decreases n - i,
        {
            let hit = match &events[i] {
                EvmEvent::NewCommitment { .. } => true,
                _ => false,
            };
            if hit {
                proof {
                    assert((events@[i as int]@) is NewCommitment);
                }
                return true;
            }
            i += 1;
        }
        false
    }
}

/// The leaf subscription worker of one anchor contract: it holds the
/// endpoint and the contract address; the subscription loop performs
/// network work outside the library and lands its events in the leaf
/// cache.
#[derive(Clone, Debug)]
pub struct LeavesWatcher {
    /// The websocket endpoint the subscription connects to.
    pub ws_endpoint: String,
    /// The 20-byte address of the watched contract.
    pub contract: Vec<u8>,
}

impl LeavesWatcher {
    /// Builds the worker for one endpoint and contract.
    pub fn new(ws_endpoint: String, contract: Vec<u8>) -> (r: LeavesWatcher)
        requires
            contract@.len() == 20,
        ensures
            r.ws_endpoint == ws_endpoint,
            r.contract == contract,
    {
        LeavesWatcher { ws_endpoint, contract }
    }
}

} // verus!
