//! Per-event handlers: the leaf cache handler, the encrypted-output cache
//! handler, and their digest-gated forms that make at-least-once delivery
//! idempotent.
//!
//! A gated handler first renders the event into its canonical bytes; an
//! event whose bytes the event-hash set already holds changes nothing, and
//! the bytes are stored only after the handler ran to completion.

use vstd::prelude::*;

use crate::bytes::copy_bytes;
use crate::proposals::{
    clone_resource_id, resource_id_eq, spec_proposal_bytes, spec_proposal_wf, spec_resource_wf,
    AnchorUpdateProposal, AnchorUpdateProposalView, ProposalHeader, ProposalHeaderView,
    ResourceId, ResourceIdView,
};
use crate::queue::{spec_queue_contains_key, QueueIdView};
use crate::signing::{
    spec_command_bytes, spec_keccak512, spec_proposal_sign_ok, spec_proposal_signature,
    spec_vote_call_bytes, MockedProposalSigningBackend, ProposalSigningBackendSelector,
    SigningRulesBackend,
};
use crate::store::{spec_pairs_view, MemStore};
use crate::watcher::{encode_event, spec_event_bytes, EvmEvent, EvmEventView};
use crate::RelayerError;

verus! {

/// The fixed 4-byte selector of the linked anchors' edge-update function.
pub open spec fn spec_update_edge_signature() -> Seq<u8> {
    seq![141u8, 9u8, 22u8, 157u8]
}

/// The anchor update proposal one source insertion addresses to one linked
/// anchor: nonce and leaf index are the inserted leaf's index, the root is
/// the source's current merkle root, and the header names the target.
pub open spec fn spec_update_proposal(
    src: ResourceIdView,
    merkle_root: Seq<u8>,
    leaf_index: u32,
    target: ResourceIdView,
) -> AnchorUpdateProposalView {
    AnchorUpdateProposalView {
        header: ProposalHeaderView {
            resource_id: target,
            function_signature: spec_update_edge_signature(),
            nonce: leaf_index,
        },
        src_chain_id: src.typed_chain_id,
        last_leaf_index: leaf_index,
        merkle_root,
        target_system: target.target_system,
    }
}

/// The proposals one insertion event yields: one per linked anchor other
/// than the source, in the linked anchors' order.
pub open spec fn spec_build_proposals(
    src: ResourceIdView,
    merkle_root: Seq<u8>,
    leaf_index: u32,
    linked: Seq<ResourceIdView>,
) -> Seq<AnchorUpdateProposalView>
    decreases linked.len(),
{
    if linked.len() == 0 {
        Seq::empty()
    } else {
        let front = spec_build_proposals(src, merkle_root, leaf_index, linked.drop_last());
        if linked.last() == src {
            front
        } else {
            front.push(spec_update_proposal(src, merkle_root, leaf_index, linked.last()))
        }
    }
}

/// No proposal addresses the source anchor itself: an insertion updates
/// the edges of the other anchors only.
pub proof fn lemma_no_self_update(
    src: ResourceIdView,
    merkle_root: Seq<u8>,
    leaf_index: u32,
    linked: Seq<ResourceIdView>,
)
    ensures
        forall|i: int|
            0 <= i < spec_build_proposals(src, merkle_root, leaf_index, linked).len()
                ==> #[trigger] spec_build_proposals(
                src,
                merkle_root,
                leaf_index,
                linked,
            )[i].header.resource_id != src,
    decreases linked.len(),
{
    if linked.len() > 0 {
        lemma_no_self_update(src, merkle_root, leaf_index, linked.drop_last());
    }
}

/// Builds the proposal addressed to one linked anchor.
pub fn proposal_for_target(
    src: &ResourceId,
    merkle_root: &Vec<u8>,
    leaf_index: u32,
    target: &ResourceId,
) -> (r: AnchorUpdateProposal)
    requires
        spec_resource_wf(target@),
        merkle_root@.len() == 32,
    ensures
        r@ == spec_update_proposal(src@, merkle_root@, leaf_index, target@),
        spec_proposal_wf(r@),
{
    let mut function_signature: Vec<u8> = Vec::new();
    function_signature.push(141);
    function_signature.push(9);
    function_signature.push(22);
    function_signature.push(157);
    proof {
        assert(function_signature@ =~= spec_update_edge_signature());
    }
    let header = ProposalHeader {
        resource_id: clone_resource_id(target),
        function_signature,
        nonce: leaf_index,
    };
    AnchorUpdateProposal {
        header,
        src_chain_id: src.typed_chain_id,
        last_leaf_index: leaf_index,
        merkle_root: copy_bytes(merkle_root),
        target_system: crate::proposals::clone_target_system(&target.target_system),
    }
}

/// The views of a list of resource ids.
pub open spec fn spec_rids_view(s: Seq<ResourceId>) -> Seq<ResourceIdView> {
    Seq::new(s.len(), |i: int| s[i]@)
}

/// Builds the anchor update proposals of one insertion: one per linked
/// anchor other than the source, in order.
#[verifier::loop_isolation(false)]
pub fn build_anchor_update_proposals(
    src: &ResourceId,
    merkle_root: &Vec<u8>,
    leaf_index: u32,
    linked: &Vec<ResourceId>,
) -> (r: Vec<AnchorUpdateProposal>)
    requires
        merkle_root@.len() == 32,
        forall|i: int| 0 <= i < linked@.len() ==> spec_resource_wf(#[trigger] linked@[i]@),
    ensures
        Seq::new(r@.len(), |i: int| r@[i]@) == spec_build_proposals(
            src@,
            merkle_root@,
            leaf_index,
            spec_rids_view(linked@),
        ),
        forall|i: int| 0 <= i < r@.len() ==> spec_proposal_wf(#[trigger] r@[i]@),
{
    let n = linked.len();
    let mut out: Vec<AnchorUpdateProposal> = Vec::new();
    let mut i: usize = 0;
    while i < n
        invariant
            i <= n,
            Seq::new(out@.len(), |k: int| out@[k]@) == spec_build_proposals(
                src@,
                merkle_root@,
                leaf_index,
                spec_rids_view(linked@).take(i as int),
            ),
            forall|k: int| 0 <= k < out@.len() ==> spec_proposal_wf(#[trigger] out@[k]@),
        decreases n - i,
    {
        proof {
            let lv = spec_rids_view(linked@);
            assert(lv.take(i + 1).drop_last() =~= lv.take(i as int));
            assert(lv.take(i + 1).last() == linked@[i as int]@);
        }
        if !resource_id_eq(&linked[i], src) {
            let p = proposal_for_target(src, merkle_root, leaf_index, &linked[i]);
            out.push(p);
        }
        proof {
            assert(Seq::new(out@.len(), |k: int| out@[k]@) =~= spec_build_proposals(
                src@,
                merkle_root@,
                leaf_index,
                spec_rids_view(linked@).take(i + 1),
            ));
        }
        i += 1;
    }
    proof {
        assert(spec_rids_view(linked@).take(n as int) =~= spec_rids_view(linked@));
    }
    out
}

/// The queue one dispatched proposal lands in: the target bridge's command
/// queue for the local signer, the source chain's transaction queue for the
/// voting backend.
pub open spec fn spec_dispatch_queue(
    backend: ProposalSigningBackendSelector,
    p: AnchorUpdateProposalView,
) -> QueueIdView {
    match backend {
        ProposalSigningBackendSelector::Mocked(_) => QueueIdView::Bridge {
            bridge: p.header.resource_id,
        },
        ProposalSigningBackendSelector::Dkg(b) => QueueIdView::Evm {
            chain_id: b.src_chain_id as u64,
        },
        ProposalSigningBackendSelector::Disabled => QueueIdView::Evm { chain_id: 0 },
    }
}

/// The queue key the local signer's command for `p` carries.
pub open spec fn spec_mocked_command_key(key: Seq<u8>, p: AnchorUpdateProposalView) -> Seq<u8> {
    spec_keccak512(spec_proposal_bytes(p) + spec_proposal_signature(key, p))
}

/// The queue key the voting backend's vote call for `p` carries.
pub open spec fn spec_vote_call_key(phase1_job_id: Seq<u8>, p: AnchorUpdateProposalView) -> Seq<
    u8,
> {
    spec_keccak512(
        spec_vote_call_bytes(phase1_job_id, Seq::new(32, |i: int| 1u8), spec_proposal_bytes(p)),
    )
}

/// A backend selector is well formed when its governor key, if it has one,
/// has the curve's width.
pub open spec fn spec_selector_wf(s: ProposalSigningBackendSelector) -> bool {
    match s {
        ProposalSigningBackendSelector::Mocked(b) => b.wf(),
        _ => true,
    }
}

/// The queue item the local signer enqueues for one proposal.
pub open spec fn spec_mocked_item(
    key: Seq<u8>,
    p: AnchorUpdateProposalView,
    now: u64,
    ttl_ms: u64,
) -> crate::queue::QueueItemView {
    crate::queue::QueueItemView {
        key: spec_mocked_command_key(key, p),
        payload: spec_command_bytes(spec_proposal_bytes(p), spec_proposal_signature(key, p)),
        state: crate::queue::QueueStateView::Pending,
        created_at: now,
        ttl_ms,
    }
}

/// One successful local-signer dispatch step keeps the loop's facts: every
/// command enqueued so far stays queued, the new command is queued, and a
/// queue that changed is the bridge queue of one of the proposals seen.
#[verifier::rlimit(100)]
proof fn lemma_mocked_step(
    b: MockedProposalSigningBackend,
    base: MemStore,
    mid: MemStore,
    news: MemStore,
    proposals: Seq<AnchorUpdateProposalView>,
    i: int,
    now: u64,
    ttl_ms: u64,
)
    requires
        0 <= i < proposals.len(),
        news.spec_queue((QueueIdView::Bridge { bridge: proposals[i].header.resource_id }))
            == crate::queue::spec_enqueue(
            mid.spec_queue((QueueIdView::Bridge { bridge: proposals[i].header.resource_id })),
            spec_mocked_item(b.private_key@, proposals[i], now, ttl_ms),
        ),
        forall|q2: QueueIdView|
            !(q2 == (QueueIdView::Bridge { bridge: proposals[i].header.resource_id }))
                ==> #[trigger] news.spec_queue(q2) == mid.spec_queue(q2),
        forall|j: int|
            0 <= j < i && b.spec_known_bridge(#[trigger] proposals[j].header.resource_id)
                ==> spec_queue_contains_key(
                mid.spec_queue((QueueIdView::Bridge { bridge: proposals[j].header.resource_id })),
                spec_mocked_command_key(b.private_key@, proposals[j]),
            ),
        forall|q2: QueueIdView| #![trigger mid.spec_queue(q2)]
            mid.spec_queue(q2) == base.spec_queue(q2) || (exists|j: int|
                0 <= j < i && q2 == (QueueIdView::Bridge {
                    bridge: proposals[j].header.resource_id,
                })),
    ensures
        forall|j: int|
            0 <= j < i + 1 && b.spec_known_bridge(#[trigger] proposals[j].header.resource_id)
                ==> spec_queue_contains_key(
                news.spec_queue(
                    (QueueIdView::Bridge { bridge: proposals[j].header.resource_id }),
                ),
                spec_mocked_command_key(b.private_key@, proposals[j]),
            ),
        forall|q2: QueueIdView| #![trigger news.spec_queue(q2)]
            news.spec_queue(q2) == base.spec_queue(q2) || (exists|j: int|
                0 <= j < i + 1 && q2 == (QueueIdView::Bridge {
                    bridge: proposals[j].header.resource_id,
                })),
{
    let bq = (QueueIdView::Bridge { bridge: proposals[i].header.resource_id });
    let itv = spec_mocked_item(b.private_key@, proposals[i], now, ttl_ms);
    crate::queue::lemma_enqueue_contains(mid.spec_queue(bq), itv);
    assert forall|j: int|
        0 <= j < i + 1 && b.spec_known_bridge(#[trigger] proposals[j].header.resource_id)
        implies spec_queue_contains_key(
        news.spec_queue((QueueIdView::Bridge { bridge: proposals[j].header.resource_id })),
        spec_mocked_command_key(b.private_key@, proposals[j]),
    ) by {
        let qj = (QueueIdView::Bridge { bridge: proposals[j].header.resource_id });
        if j < i {
            assert(spec_queue_contains_key(
                mid.spec_queue(qj),
                spec_mocked_command_key(b.private_key@, proposals[j]),
            ));
            if qj == bq {
                assert(spec_queue_contains_key(
                    news.spec_queue(qj),
                    spec_mocked_command_key(b.private_key@, proposals[j]),
                ));
            }
        }
    }
    assert forall|q2: QueueIdView| #![trigger news.spec_queue(q2)]
        news.spec_queue(q2) == base.spec_queue(q2) || (exists|j: int|
            0 <= j < i + 1 && q2 == (QueueIdView::Bridge {
                bridge: proposals[j].header.resource_id,
            })) by {
        if news.spec_queue(q2) != base.spec_queue(q2) {
            if q2 == bq {
                assert(0 <= i < i + 1 && q2 == (QueueIdView::Bridge {
                    bridge: proposals[i].header.resource_id,
                }));
            } else {
                assert(mid.spec_queue(q2) != base.spec_queue(q2));
                let j = choose|j: int|
                    0 <= j < i && q2 == (QueueIdView::Bridge {
                        bridge: proposals[j].header.resource_id,
                    });
                assert(0 <= j < i + 1);
            }
        }
    }
}

/// Dispatches every proposal to the local signer: each accepted proposal
/// is signed and its bridge command enqueued. Only the bridge queues of
/// the given proposals can change.
#[verifier::rlimit(100)]
fn dispatch_mocked(
    b: &MockedProposalSigningBackend,
    store: &mut MemStore,
    proposals: &Vec<AnchorUpdateProposal>,
    now: u64,
    ttl_ms: u64,
) -> (res: Result<(), RelayerError>)
    requires
        old(store).wf(),
        b.wf(),
        forall|i: int| 0 <= i < proposals@.len() ==> spec_proposal_wf(#[trigger] proposals@[i]@),
    ensures
        final(store).wf(),
        res is Ok ==> forall|i: int|
            0 <= i < proposals@.len() && b.spec_known_bridge(
                #[trigger] proposals@[i]@.header.resource_id,
            ) ==> spec_queue_contains_key(
                final(store).spec_queue(
                    (QueueIdView::Bridge { bridge: proposals@[i]@.header.resource_id }),
                ),
                spec_mocked_command_key(b.private_key@, proposals@[i]@),
            ),
        (res is Ok) == (forall|i: int|
            0 <= i < proposals@.len() && b.spec_known_bridge(
                #[trigger] proposals@[i]@.header.resource_id,
            ) ==> spec_proposal_sign_ok(b.private_key@, proposals@[i]@)),
        res matches Err(e) ==> e == RelayerError::InvalidSigningKey,
        forall|q2: QueueIdView| #![trigger final(store).spec_queue(q2)]
            final(store).spec_queue(q2) == old(store).spec_queue(q2) || (exists|j: int|
                0 <= j < proposals@.len() && q2 == (QueueIdView::Bridge {
                    bridge: proposals@[j]@.header.resource_id,
                })),
        final(store).leaves == old(store).leaves,
        final(store).encrypted_outputs == old(store).encrypted_outputs,
        final(store).checkpoints == old(store).checkpoints,
        final(store).deposit_blocks == old(store).deposit_blocks,
        final(store).event_hashes == old(store).event_hashes,
        final(store).proposals == old(store).proposals,
{
    let ghost pvs = Seq::new(proposals@.len(), |k: int| proposals@[k]@);
    let n = proposals.len();
    let mut i: usize = 0;
    while i < n
        invariant
            i <= n,
            n == proposals@.len(),
            pvs == Seq::new(proposals@.len(), |k: int| proposals@[k]@),
            b.wf(),
            forall|j: int| 0 <= j < n ==> spec_proposal_wf(#[trigger] pvs[j]),
            store.wf(),
            forall|j: int|
                0 <= j < i && b.spec_known_bridge(#[trigger] pvs[j].header.resource_id)
                    ==> spec_queue_contains_key(
                    store.spec_queue((QueueIdView::Bridge { bridge: pvs[j].header.resource_id })),
                    spec_mocked_command_key(b.private_key@, pvs[j]),
                ),
            forall|j: int|
                0 <= j < i && b.spec_known_bridge(#[trigger] pvs[j].header.resource_id)
                    ==> spec_proposal_sign_ok(b.private_key@, pvs[j]),
            forall|q2: QueueIdView| #![trigger store.spec_queue(q2)]
                store.spec_queue(q2) == old(store).spec_queue(q2) || (exists|j: int|
                    0 <= j < i && q2 == (QueueIdView::Bridge {
                        bridge: pvs[j].header.resource_id,
                    })),
            store.leaves == old(store).leaves,
            store.encrypted_outputs == old(store).encrypted_outputs,
            store.checkpoints == old(store).checkpoints,
            store.deposit_blocks == old(store).deposit_blocks,
            store.event_hashes == old(store).event_hashes,
            store.proposals == old(store).proposals,
        decreases n - i,
    {
        let p = &proposals[i];
        proof {
            assert(pvs[i as int] == proposals@[i as int]@);
            crate::proposals::lemma_proposal_round_trip(p@);
        }
        if b.can_handle_proposal(p) {
            let ghost mid = *store;
            match b.handle_proposal(store, p, now, ttl_ms) {
                Result::Ok(_) => {
                    proof {
                        assert(spec_proposal_sign_ok(b.private_key@, pvs[i as int]));
                        lemma_mocked_step(
                            *b,
                            *old(store),
                            mid,
                            *store,
                            pvs,
                            i as int,
                            now,
                            ttl_ms,
                        );
                    }
                },
                Result::Err(e) => {
                    proof {
                        assert(b.spec_known_bridge(proposals@[i as int]@.header.resource_id));
                        assert(!spec_proposal_sign_ok(b.private_key@, proposals@[i as int]@));
                    }
                    return Result::Err(e);
                },
            }
        }
        i += 1;
    }
    proof {
        assert forall|j: int|
            0 <= j < proposals@.len() && b.spec_known_bridge(
                #[trigger] proposals@[j]@.header.resource_id,
            ) implies spec_queue_contains_key(
            store.spec_queue((QueueIdView::Bridge { bridge: proposals@[j]@.header.resource_id })),
            spec_mocked_command_key(b.private_key@, proposals@[j]@),
        ) by {
            assert(pvs[j] == proposals@[j]@);
        }
        assert forall|j: int|
            0 <= j < proposals@.len() && b.spec_known_bridge(
                #[trigger] proposals@[j]@.header.resource_id,
            ) implies spec_proposal_sign_ok(b.private_key@, proposals@[j]@) by {
            assert(pvs[j] == proposals@[j]@);
        }
        assert forall|q2: QueueIdView| #![trigger store.spec_queue(q2)]
            store.spec_queue(q2) == old(store).spec_queue(q2) || (exists|j: int|
                0 <= j < proposals@.len() && q2 == (QueueIdView::Bridge {
                    bridge: proposals@[j]@.header.resource_id,
                })) by {
            if store.spec_queue(q2) != old(store).spec_queue(q2) {
                let j = choose|j: int|
                    0 <= j < pvs.len() && q2 == (QueueIdView::Bridge {
                        bridge: pvs[j].header.resource_id,
                    });
                assert(q2 == (QueueIdView::Bridge {
                    bridge: proposals@[j]@.header.resource_id,
                }));
            }
        }
    }
    Result::Ok(())
}

/// Dispatches every proposal to the voting backend: one vote call per
/// proposal enters the source chain's transaction queue. Only that queue
/// can change.
#[verifier::rlimit(100)]
fn dispatch_dkg(
    b: &SigningRulesBackend,
    store: &mut MemStore,
    proposals: &Vec<AnchorUpdateProposal>,
    now: u64,
    ttl_ms: u64,
) -> (res: Result<(), RelayerError>)
    requires
        old(store).wf(),
        forall|i: int| 0 <= i < proposals@.len() ==> spec_proposal_wf(#[trigger] proposals@[i]@),
    ensures
        final(store).wf(),
        res is Ok,
        proposals@.len() == 0 ==> *final(store) == *old(store),
        forall|i: int|
            0 <= i < proposals@.len() ==> spec_queue_contains_key(
                final(store).spec_queue((QueueIdView::Evm { chain_id: b.src_chain_id as u64 })),
                #[trigger] spec_vote_call_key(b.phase1_job_id@, proposals@[i]@),
            ),
        forall|q2: QueueIdView| #![trigger final(store).spec_queue(q2)]
            q2 != (QueueIdView::Evm { chain_id: b.src_chain_id as u64 })
                ==> final(store).spec_queue(q2) == old(store).spec_queue(q2),
        final(store).leaves == old(store).leaves,
        final(store).encrypted_outputs == old(store).encrypted_outputs,
        final(store).checkpoints == old(store).checkpoints,
        final(store).deposit_blocks == old(store).deposit_blocks,
        final(store).event_hashes == old(store).event_hashes,
        final(store).proposals == old(store).proposals,
{
    let ghost tq = (QueueIdView::Evm { chain_id: b.src_chain_id as u64 });
    let n = proposals.len();
    let mut i: usize = 0;
    while i < n
        invariant
            i <= n,
            n == proposals@.len(),
            tq == (QueueIdView::Evm { chain_id: b.src_chain_id as u64 }),
            forall|j: int| 0 <= j < n ==> spec_proposal_wf(#[trigger] proposals@[j]@),
            i == 0 ==> *store == *old(store),
            store.wf(),
            forall|j: int|
                0 <= j < i ==> spec_queue_contains_key(
                    store.spec_queue(tq),
                    #[trigger] spec_vote_call_key(b.phase1_job_id@, proposals@[j]@),
                ),
            forall|q2: QueueIdView| #![trigger store.spec_queue(q2)]
                q2 != tq ==> store.spec_queue(q2) == old(store).spec_queue(q2),
            store.leaves == old(store).leaves,
            store.encrypted_outputs == old(store).encrypted_outputs,
            store.checkpoints == old(store).checkpoints,
            store.deposit_blocks == old(store).deposit_blocks,
            store.event_hashes == old(store).event_hashes,
            store.proposals == old(store).proposals,
        decreases n - i,
    {
        let p = &proposals[i];
        proof {
            crate::proposals::lemma_proposal_round_trip(p@);
        }
        let ghost mid = *store;
        match b.handle_proposal(store, p, now, ttl_ms) {
            Result::Ok(_) => {
                proof {
                    let pv = proposals@[i as int]@;
                    let itv = (crate::queue::QueueItemView {
                        key: spec_vote_call_key(b.phase1_job_id@, pv),
                        payload: spec_vote_call_bytes(
                            b.phase1_job_id@,
                            Seq::new(32, |k: int| 1u8),
                            spec_proposal_bytes(pv),
                        ),
                        state: crate::queue::QueueStateView::Pending,
                        created_at: now,
                        ttl_ms,
                    });
                    crate::queue::lemma_enqueue_contains(mid.spec_queue(tq), itv);
                    assert forall|j: int| 0 <= j < i + 1 implies spec_queue_contains_key(
                        store.spec_queue(tq),
                        #[trigger] spec_vote_call_key(b.phase1_job_id@, proposals@[j]@),
                    ) by {
                        if j < i {
                            let kj = spec_vote_call_key(b.phase1_job_id@, proposals@[j]@);
                            assert(spec_queue_contains_key(mid.spec_queue(tq), kj));
                        }
                    }
                }
            },
            Result::Err(e) => {
                return Result::Err(e);
            },
        }
        i += 1;
    }
    Result::Ok(())
}

/// Hands every proposal the backend accepts to the backend: the local
/// signer signs and enqueues a bridge command per accepted proposal, the
/// voting backend enqueues a vote call per proposal, and a disabled
/// backend leaves everything as it is. Whatever happens, only the
/// dispatch queues of the given proposals can change.
pub fn dispatch_proposals(
    backend: &ProposalSigningBackendSelector,
    store: &mut MemStore,
    proposals: &Vec<AnchorUpdateProposal>,
    now: u64,
    ttl_ms: u64,
) -> (res: Result<(), RelayerError>)
    requires
        old(store).wf(),
        spec_selector_wf(*backend),
        forall|i: int| 0 <= i < proposals@.len() ==> spec_proposal_wf(#[trigger] proposals@[i]@),
    ensures
        final(store).wf(),
        backend is Disabled ==> *final(store) == *old(store) && res is Ok,
        backend matches ProposalSigningBackendSelector::Mocked(b) ==> (res is Ok ==> forall|
            i: int,
        |
            0 <= i < proposals@.len() && b.spec_known_bridge(
                #[trigger] proposals@[i]@.header.resource_id,
            ) ==> spec_queue_contains_key(
                final(store).spec_queue(
                    (QueueIdView::Bridge { bridge: proposals@[i]@.header.resource_id }),
                ),
                spec_mocked_command_key(b.private_key@, proposals@[i]@),
            )),
        backend matches ProposalSigningBackendSelector::Mocked(b) ==> ((res is Ok) == (forall|
            i: int,
        |
            0 <= i < proposals@.len() && b.spec_known_bridge(
                #[trigger] proposals@[i]@.header.resource_id,
            ) ==> spec_proposal_sign_ok(b.private_key@, proposals@[i]@))),
        !(backend is Mocked) ==> res is Ok,
        backend matches ProposalSigningBackendSelector::Dkg(b) ==> res is Ok && forall|i: int|
            0 <= i < proposals@.len() ==> spec_queue_contains_key(
                final(store).spec_queue((QueueIdView::Evm { chain_id: b.src_chain_id as u64 })),
                #[trigger] spec_vote_call_key(b.phase1_job_id@, proposals@[i]@),
            ),
        res matches Err(e) ==> e == RelayerError::InvalidSigningKey,
        forall|q2: QueueIdView| #![trigger final(store).spec_queue(q2)]
            final(store).spec_queue(q2) == old(store).spec_queue(q2) || (exists|j: int|
                0 <= j < proposals@.len() && q2 == spec_dispatch_queue(
                    *backend,
                    proposals@[j]@,
                )),
        final(store).leaves == old(store).leaves,
        final(store).encrypted_outputs == old(store).encrypted_outputs,
        final(store).checkpoints == old(store).checkpoints,
        final(store).deposit_blocks == old(store).deposit_blocks,
        final(store).event_hashes == old(store).event_hashes,
        final(store).proposals == old(store).proposals,
{
    match backend {
        ProposalSigningBackendSelector::Disabled => Result::Ok(()),
        ProposalSigningBackendSelector::Mocked(b) => {
            let res = dispatch_mocked(b, store, proposals, now, ttl_ms);
            proof {
                assert forall|q2: QueueIdView| #![trigger store.spec_queue(q2)]
                    store.spec_queue(q2) == old(store).spec_queue(q2) || (exists|j: int|
                        0 <= j < proposals@.len() && q2 == spec_dispatch_queue(
                            *backend,
                            proposals@[j]@,
                        )) by {
                    if store.spec_queue(q2) != old(store).spec_queue(q2) {
                        let j = choose|j: int|
                            0 <= j < proposals@.len() && q2 == (QueueIdView::Bridge {
                                bridge: proposals@[j]@.header.resource_id,
                            });
                        assert(q2 == spec_dispatch_queue(*backend, proposals@[j]@));
                    }
                }
            }
            res
        },
        ProposalSigningBackendSelector::Dkg(b) => {
            let res = dispatch_dkg(b, store, proposals, now, ttl_ms);
            proof {
                assert forall|q2: QueueIdView| #![trigger store.spec_queue(q2)]
                    store.spec_queue(q2) == old(store).spec_queue(q2) || (exists|j: int|
                        0 <= j < proposals@.len() && q2 == spec_dispatch_queue(
                            *backend,
                            proposals@[j]@,
                        )) by {
                    if store.spec_queue(q2) != old(store).spec_queue(q2) {
                        assert(q2 == (QueueIdView::Evm { chain_id: b.src_chain_id as u64 }));
                        assert(proposals@.len() > 0);
                        assert(q2 == spec_dispatch_queue(*backend, proposals@[0]@));
                    }
                }
            }
            res
        },
    }
}


/// Appends one leaf record under `src` and records the block that carried
/// it. Either both the leaf and the deposit block advance, or neither: a
/// leaf index that does not continue the contiguous sequence is rejected
/// with nothing written.
pub fn handle_leaves_event(
    store: &mut MemStore,
    src: &ResourceId,
    leaf_index: u32,
    commitment: &Vec<u8>,
    block_number: u64,
) -> (res: Result<(), RelayerError>)
    requires
        old(store).wf(),
        commitment@.len() == 32,
    ensures
        final(store).wf(),
        (res is Ok) == (leaf_index == old(store).spec_leaves(src@).len()),
        res is Ok ==> final(store).spec_leaves(src@) == old(store).spec_leaves(src@).push(
            (leaf_index, commitment@),
        ) && final(store).spec_deposit_block(src@) == Some(block_number),
        res is Ok ==> forall|r2: ResourceIdView|
            r2 != src@ ==> #[trigger] final(store).spec_leaves(r2) == old(store).spec_leaves(r2),
        res is Ok ==> forall|r2: ResourceIdView|
            r2 != src@ ==> #[trigger] final(store).spec_deposit_block(r2) == old(
                store,
            ).spec_deposit_block(r2),
        res is Err ==> *final(store) == *old(store),
        res matches Err(e) ==> e == RelayerError::NonContiguousLeaves,
        final(store).encrypted_outputs == old(store).encrypted_outputs,
        final(store).checkpoints == old(store).checkpoints,
        final(store).event_hashes == old(store).event_hashes,
        final(store).queues == old(store).queues,
        final(store).proposals == old(store).proposals,
{
    let mut batch: Vec<(u32, Vec<u8>)> = Vec::new();
    batch.push((leaf_index, copy_bytes(commitment)));
    let ghost batchg = batch@;
    proof {
        assert(batchg.len() == 1);
        assert(batchg[0].0 == leaf_index);
    }
    match store.insert_leaves(src, batch) {
        Result::Ok(_) => {
            let ghost mid = *store;
            proof {
                assert(old(store).spec_leaves(src@) + spec_pairs_view(batchg)
                    =~= old(store).spec_leaves(src@).push((leaf_index, commitment@)));
            }
            let prev = store.insert_last_deposit_block_number(src, block_number);
            proof {
                assert forall|r2: ResourceIdView| r2 != src@ implies #[trigger] store.spec_leaves(
                    r2,
                ) == old(store).spec_leaves(r2) by {
                    assert(mid.spec_leaves(r2) == old(store).spec_leaves(r2));
                    assert(store.leaves == mid.leaves);
                }
                assert forall|r2: ResourceIdView|
                    r2 != src@ implies #[trigger] store.spec_deposit_block(r2) == old(
                    store,
                ).spec_deposit_block(r2) by {
                    assert(store.spec_deposit_block(r2) == mid.spec_deposit_block(r2));
                    assert(mid.deposit_blocks == old(store).deposit_blocks);
                }
                assert(store.spec_leaves(src@) == mid.spec_leaves(src@));
            }
            Result::Ok(())
        },
        Result::Err(e) => Result::Err(e),
    }
}

/// The digest-gated leaf handler: an insertion event already recorded in
/// the event-hash set changes nothing; a fresh one appends its leaf,
/// records its block and only then enters the set, so a digest in the set
/// means the handler ran to completion for that event.
pub fn handle_leaves_event_once(
    store: &mut MemStore,
    src: &ResourceId,
    leaf_index: u32,
    commitment: &Vec<u8>,
    block_number: u64,
) -> (res: Result<bool, RelayerError>)
    requires
        old(store).wf(),
        commitment@.len() == 32,
    ensures
        final(store).wf(),
        ({
            let d = spec_event_bytes(
                EvmEventView::Insertion { leaf_index, commitment: commitment@ },
            );
            &&& (old(store).spec_has_event(d) ==> res == Result::<bool, RelayerError>::Ok(false)
                && *final(store) == *old(store))
            &&& (!old(store).spec_has_event(d) ==> {
                &&& (res is Ok) == (leaf_index == old(store).spec_leaves(src@).len())
                &&& (res is Ok ==> res == Result::<bool, RelayerError>::Ok(true)
                    && final(store).spec_leaves(src@) == old(store).spec_leaves(src@).push(
                    (leaf_index, commitment@),
                ) && final(store).spec_deposit_block(src@) == Some(block_number)
                    && final(store).spec_has_event(d) && (forall|d2: Seq<u8>|
                    d2 != d ==> #[trigger] final(store).spec_has_event(d2) == old(store).spec_has_event(d2)))
                &&& (res is Err ==> *final(store) == *old(store))
            })
        }),
        final(store).encrypted_outputs == old(store).encrypted_outputs,
        final(store).checkpoints == old(store).checkpoints,
        final(store).queues == old(store).queues,
        final(store).proposals == old(store).proposals,
        forall|r2: ResourceIdView|
            r2 != src@ ==> #[trigger] final(store).spec_leaves(r2) == old(store).spec_leaves(r2),
        forall|r2: ResourceIdView|
            r2 != src@ ==> #[trigger] final(store).spec_deposit_block(r2) == old(
                store,
            ).spec_deposit_block(r2),
{
    let ev = EvmEvent::Insertion { leaf_index, commitment: copy_bytes(commitment) };
    let digest = encode_event(&ev);
    if store.contains_event(&digest) {
        return Result::Ok(false);
    }
    match handle_leaves_event(store, src, leaf_index, commitment, block_number) {
        Result::Ok(_) => {
            let ghost mid = *store;
            store.store_event(&digest);
            proof {
                assert forall|r2: ResourceIdView| r2 != src@ implies #[trigger] store.spec_leaves(
                    r2,
                ) == old(store).spec_leaves(r2) by {
                    assert(mid.spec_leaves(r2) == old(store).spec_leaves(r2));
                    assert(store.leaves == mid.leaves);
                }
                assert forall|r2: ResourceIdView|
                    r2 != src@ implies #[trigger] store.spec_deposit_block(r2) == old(
                    store,
                ).spec_deposit_block(r2) by {
                    assert(mid.spec_deposit_block(r2) == old(store).spec_deposit_block(r2));
                    assert(store.deposit_blocks == mid.deposit_blocks);
                }
                assert(store.spec_leaves(src@) == mid.spec_leaves(src@));
                assert(store.spec_deposit_block(src@) == mid.spec_deposit_block(src@));
            }
            Result::Ok(true)
        },
        Result::Err(e) => Result::Err(e),
    }
}

/// Appends one encrypted-output record under `src` and records the block
/// that carried it; an index that does not continue the contiguous
/// sequence is rejected with nothing written.
pub fn handle_encrypted_output_event(
    store: &mut MemStore,
    src: &ResourceId,
    index: u32,
    encrypted_output: &Vec<u8>,
    block_number: u64,
) -> (res: Result<(), RelayerError>)
    requires
        old(store).wf(),
    ensures
        final(store).wf(),
        (res is Ok) == (index == old(store).spec_outputs(src@).len()),
        res is Ok ==> final(store).spec_outputs(src@) == old(store).spec_outputs(src@).push(
            (index, encrypted_output@),
        ) && final(store).spec_deposit_block(src@) == Some(block_number),
        res is Ok ==> forall|r2: ResourceIdView|
            r2 != src@ ==> #[trigger] final(store).spec_outputs(r2) == old(store).spec_outputs(r2),
        res is Ok ==> forall|r2: ResourceIdView|
            r2 != src@ ==> #[trigger] final(store).spec_deposit_block(r2) == old(
                store,
            ).spec_deposit_block(r2),
        res is Err ==> *final(store) == *old(store),
        res matches Err(e) ==> e == RelayerError::NonContiguousLeaves,
        final(store).leaves == old(store).leaves,
        final(store).checkpoints == old(store).checkpoints,
        final(store).event_hashes == old(store).event_hashes,
        final(store).queues == old(store).queues,
        final(store).proposals == old(store).proposals,
{
    let mut batch: Vec<(u32, Vec<u8>)> = Vec::new();
    batch.push((index, copy_bytes(encrypted_output)));
    let ghost batchg = batch@;
    proof {
        assert(batchg.len() == 1);
        assert(batchg[0].0 == index);
    }
    match store.insert_encrypted_output(src, batch) {
        Result::Ok(_) => {
            let ghost mid = *store;
            proof {
                assert(old(store).spec_outputs(src@) + spec_pairs_view(batchg)
                    =~= old(store).spec_outputs(src@).push((index, encrypted_output@)));
            }
            let prev = store.insert_last_deposit_block_number(src, block_number);
            proof {
                assert forall|r2: ResourceIdView| r2 != src@ implies #[trigger] store.spec_outputs(
                    r2,
                ) == old(store).spec_outputs(r2) by {
                    assert(mid.spec_outputs(r2) == old(store).spec_outputs(r2));
                    assert(store.encrypted_outputs == mid.encrypted_outputs);
                }
                assert forall|r2: ResourceIdView|
                    r2 != src@ implies #[trigger] store.spec_deposit_block(r2) == old(
                    store,
                ).spec_deposit_block(r2) by {
                    assert(store.spec_deposit_block(r2) == mid.spec_deposit_block(r2));
                    assert(mid.deposit_blocks == old(store).deposit_blocks);
                }
                assert(store.spec_outputs(src@) == mid.spec_outputs(src@));
            }
            Result::Ok(())
        },
        Result::Err(e) => Result::Err(e),
    }
}

/// The digest-gated encrypted-output handler, mirroring the gated leaf
/// handler for new-commitment events.
pub fn handle_encrypted_output_event_once(
    store: &mut MemStore,
    src: &ResourceId,
    index: u32,
    commitment: &Vec<u8>,
    encrypted_output: &Vec<u8>,
    block_number: u64,
) -> (res: Result<bool, RelayerError>)
    requires
        old(store).wf(),
        commitment@.len() <= 0xffff_ffff,
        encrypted_output@.len() <= 0xffff_ffff,
    ensures
        final(store).wf(),
        ({
            let d = spec_event_bytes(
                EvmEventView::NewCommitment {
                    index,
                    commitment: commitment@,
                    encrypted_output: encrypted_output@,
                },
            );
            &&& (old(store).spec_has_event(d) ==> res == Result::<bool, RelayerError>::Ok(false)
                && *final(store) == *old(store))
            &&& (!old(store).spec_has_event(d) ==> {
                &&& (res is Ok) == (index == old(store).spec_outputs(src@).len())
                &&& (res is Ok ==> res == Result::<bool, RelayerError>::Ok(true)
                    && final(store).spec_outputs(src@) == old(store).spec_outputs(src@).push(
                    (index, encrypted_output@),
                ) && final(store).spec_deposit_block(src@) == Some(block_number)
                    && final(store).spec_has_event(d))
                &&& (res is Err ==> *final(store) == *old(store))
            })
        }),
        final(store).leaves == old(store).leaves,
        final(store).checkpoints == old(store).checkpoints,
        final(store).queues == old(store).queues,
        final(store).proposals == old(store).proposals,
{
    let ev = EvmEvent::NewCommitment {
        index,
        commitment: copy_bytes(commitment),
        encrypted_output: copy_bytes(encrypted_output),
    };
    let digest = encode_event(&ev);
    if store.contains_event(&digest) {
        return Result::Ok(false);
    }
    match handle_encrypted_output_event(store, src, index, encrypted_output, block_number) {
        Result::Ok(_) => {
            let ghost mid = *store;
            store.store_event(&digest);
            proof {
                assert(store.spec_outputs(src@) == mid.spec_outputs(src@));
                assert(store.spec_deposit_block(src@) == mid.spec_deposit_block(src@));
            }
            Result::Ok(true)
        },
        Result::Err(e) => Result::Err(e),
    }
}



/// The anchor watcher that turns insertion events into signed anchor
/// update proposals through its configured signing backend.
pub struct VAnchorWatcher {
    /// The backend the proposals are dispatched to.
    pub proposal_signing_backend: ProposalSigningBackendSelector,
}

impl VAnchorWatcher {
    /// Builds the watcher around a signing backend.
    pub fn new(proposal_signing_backend: ProposalSigningBackendSelector) -> (r: VAnchorWatcher)
        ensures
            r.proposal_signing_backend == proposal_signing_backend,
    {
        VAnchorWatcher { proposal_signing_backend }
    }

    /// Handles one insertion event at the source anchor. The anchor emits
    /// two insertions per transaction, so only odd leaf indices yield
    /// proposals; a fresh odd event builds one proposal per linked anchor
    /// other than the source, dispatches them, and records the event's
    /// digest once every dispatch succeeded.
    pub fn handle_event(
        &self,
        store: &mut MemStore,
        src: &ResourceId,
        leaf_index: u32,
        commitment: &Vec<u8>,
        merkle_root: &Vec<u8>,
        linked: &Vec<ResourceId>,
        now: u64,
        ttl_ms: u64,
    ) -> (res: Result<bool, RelayerError>)
        requires
            old(store).wf(),
            commitment@.len() == 32,
            merkle_root@.len() == 32,
            forall|i: int| 0 <= i < linked@.len() ==> spec_resource_wf(#[trigger] linked@[i]@),
            spec_selector_wf(self.proposal_signing_backend),
        ensures
            final(store).wf(),
            leaf_index % 2 == 0 ==> res == Result::<bool, RelayerError>::Ok(false)
                && *final(store) == *old(store),
            ({
                let d = spec_event_bytes(
                    EvmEventView::Insertion { leaf_index, commitment: commitment@ },
                );
                let ps = spec_build_proposals(
                    src@,
                    merkle_root@,
                    leaf_index,
                    spec_rids_view(linked@),
                );
                &&& (leaf_index % 2 == 1 && old(store).spec_has_event(d) ==> res == Result::<
                    bool,
                    RelayerError,
                >::Ok(false) && *final(store) == *old(store))
                &&& (leaf_index % 2 == 1 && !old(store).spec_has_event(d) && res is Ok ==> {
                    &&& res == Result::<bool, RelayerError>::Ok(true)
                    &&& final(store).spec_has_event(d)
                    &&& (self.proposal_signing_backend matches
                        ProposalSigningBackendSelector::Mocked(b) ==> forall|i: int|
                        0 <= i < ps.len() && b.spec_known_bridge(
                            #[trigger] ps[i].header.resource_id,
                        ) ==> spec_queue_contains_key(
                            final(store).spec_queue(
                                (QueueIdView::Bridge { bridge: ps[i].header.resource_id }),
                            ),
                            spec_mocked_command_key(b.private_key@, ps[i]),
                        ))
                    &&& (self.proposal_signing_backend matches
                        ProposalSigningBackendSelector::Dkg(b) ==> forall|i: int|
                        0 <= i < ps.len() ==> spec_queue_contains_key(
                            final(store).spec_queue(
                                (QueueIdView::Evm { chain_id: b.src_chain_id as u64 }),
                            ),
                            #[trigger] spec_vote_call_key(b.phase1_job_id@, ps[i]),
                        ))
                })
                &&& (leaf_index % 2 == 1 && !old(store).spec_has_event(d) ==> {
                    &&& (self.proposal_signing_backend matches
                        ProposalSigningBackendSelector::Mocked(b) ==> ((res is Ok) == (forall|
                        i: int,
                    |
                        0 <= i < ps.len() && b.spec_known_bridge(
                            #[trigger] ps[i].header.resource_id,
                        ) ==> spec_proposal_sign_ok(b.private_key@, ps[i]))))
                    &&& (!(self.proposal_signing_backend is Mocked) ==> res is Ok)
                })
                &&& (forall|q2: QueueIdView| #![trigger final(store).spec_queue(q2)]
                    final(store).spec_queue(q2) == old(store).spec_queue(q2) || (exists|j: int|
                        0 <= j < ps.len() && q2 == spec_dispatch_queue(
                            self.proposal_signing_backend,
                            ps[j],
                        )))
            }),
            res is Err ==> final(store).event_hashes == old(store).event_hashes,
            final(store).leaves == old(store).leaves,
            final(store).encrypted_outputs == old(store).encrypted_outputs,
            final(store).checkpoints == old(store).checkpoints,
            final(store).deposit_blocks == old(store).deposit_blocks,
            final(store).proposals == old(store).proposals,
    {
        if leaf_index % 2 == 0 {
            return Result::Ok(false);
        }
        let ev = EvmEvent::Insertion { leaf_index, commitment: copy_bytes(commitment) };
        let digest = encode_event(&ev);
        if store.contains_event(&digest) {
            return Result::Ok(false);
        }
        let proposals = build_anchor_update_proposals(src, merkle_root, leaf_index, linked);
        let ghost ps = spec_build_proposals(
            src@,
            merkle_root@,
            leaf_index,
            spec_rids_view(linked@),
        );
        match dispatch_proposals(&self.proposal_signing_backend, store, &proposals, now, ttl_ms) {
            Result::Ok(_) => {
                let ghost mid = *store;
                store.store_event(&digest);
                proof {
                    assert forall|q2: QueueIdView| #![trigger store.spec_queue(q2)]
                        store.spec_queue(q2) == mid.spec_queue(q2) by {
                        assert(store.queues == mid.queues);
                    }
                    assert(ps.len() == proposals@.len());
                    assert forall|j: int|
                        0 <= j < ps.len() implies #[trigger] ps[j] == proposals@[j]@ by {
                        assert(Seq::new(proposals@.len(), |i: int| proposals@[i]@)[j]
                            == proposals@[j]@);
                    }
                    assert forall|q2: QueueIdView| #![trigger store.spec_queue(q2)]
                        store.spec_queue(q2) == old(store).spec_queue(q2) || (exists|j: int|
                            0 <= j < ps.len() && q2 == spec_dispatch_queue(
                                self.proposal_signing_backend,
                                ps[j],
                            )) by {
                        if store.spec_queue(q2) != old(store).spec_queue(q2) {
                            let j0 = choose|j: int|
                                0 <= j < proposals@.len() && q2 == spec_dispatch_queue(
                                    self.proposal_signing_backend,
                                    proposals@[j]@,
                                );
                            assert(ps[j0] == proposals@[j0]@);
                            assert(0 <= j0 < ps.len() && q2 == spec_dispatch_queue(
                                self.proposal_signing_backend,
                                ps[j0],
                            ));
                        }
                    }
                    match &self.proposal_signing_backend {
                        ProposalSigningBackendSelector::Mocked(b) => {
                            assert forall|i: int|
                                0 <= i < ps.len() && b.spec_known_bridge(
                                    #[trigger] ps[i].header.resource_id,
                                ) implies spec_queue_contains_key(
                                store.spec_queue(
                                    (QueueIdView::Bridge { bridge: ps[i].header.resource_id }),
                                ),
                                spec_mocked_command_key(b.private_key@, ps[i]),
                            ) by {
                                assert(ps[i] == proposals@[i]@);
                            }
                            assert forall|i: int|
                                0 <= i < ps.len() && b.spec_known_bridge(
                                    #[trigger] ps[i].header.resource_id,
                                ) implies spec_proposal_sign_ok(b.private_key@, ps[i]) by {
                                assert(ps[i] == proposals@[i]@);
                            }
                        },
                        ProposalSigningBackendSelector::Dkg(b) => {
                            assert forall|i: int| 0 <= i < ps.len() implies
                                spec_queue_contains_key(
                                store.spec_queue(
                                    (QueueIdView::Evm { chain_id: b.src_chain_id as u64 }),
                                ),
                                #[trigger] spec_vote_call_key(b.phase1_job_id@, ps[i]),
                            ) by {
                                assert(ps[i] == proposals@[i]@);
                            }
                        },
                        ProposalSigningBackendSelector::Disabled => {},
                    }
                }
                Result::Ok(true)
            },
            Result::Err(e) => {
                proof {
                    assert(ps.len() == proposals@.len());
                    assert forall|j: int|
                        0 <= j < ps.len() implies #[trigger] ps[j] == proposals@[j]@ by {
                        assert(Seq::new(proposals@.len(), |i: int| proposals@[i]@)[j]
                            == proposals@[j]@);
                    }
                    match &self.proposal_signing_backend {
                        ProposalSigningBackendSelector::Mocked(b) => {
                            let w = choose|w: int|
                                0 <= w < proposals@.len() && b.spec_known_bridge(
                                    #[trigger] proposals@[w]@.header.resource_id,
                                ) && !spec_proposal_sign_ok(b.private_key@, proposals@[w]@);
                            assert(ps[w] == proposals@[w]@);
                            assert(b.spec_known_bridge(ps[w].header.resource_id)
                                && !spec_proposal_sign_ok(b.private_key@, ps[w]));
                        },
                        _ => {},
                    }
                    assert forall|q2: QueueIdView| #![trigger store.spec_queue(q2)]
                        store.spec_queue(q2) == old(store).spec_queue(q2) || (exists|j: int|
                            0 <= j < ps.len() && q2 == spec_dispatch_queue(
                                self.proposal_signing_backend,
                                ps[j],
                            )) by {
                        if store.spec_queue(q2) != old(store).spec_queue(q2) {
                            let j0 = choose|j: int|
                                0 <= j < proposals@.len() && q2 == spec_dispatch_queue(
                                    self.proposal_signing_backend,
                                    proposals@[j]@,
                                );
                            assert(ps[j0] == proposals@[j0]@);
                            assert(0 <= j0 < ps.len() && q2 == spec_dispatch_queue(
                                self.proposal_signing_backend,
                                ps[j0],
                            ));
                        }
                    }
                }
                Result::Err(e)
            },
        }
    }
}

/// The open-anchor deposit handler: like the anchor watcher, but every new
/// commitment yields proposals, with no parity filter.
pub struct OpenVAnchorDepositHandler {
    /// The backend the proposals are dispatched to.
    pub proposal_signing_backend: ProposalSigningBackendSelector,
}

impl OpenVAnchorDepositHandler {
    /// Builds the handler around a signing backend.
    pub fn new(proposal_signing_backend: ProposalSigningBackendSelector) -> (r:
        OpenVAnchorDepositHandler)
        ensures
            r.proposal_signing_backend == proposal_signing_backend,
    {
        OpenVAnchorDepositHandler { proposal_signing_backend }
    }

    /// This handler takes new-commitment events and nothing else.
    pub fn can_handle_events(&self, event: &EvmEvent) -> (r: bool)
        ensures
            r == (event@ is NewCommitment),
    {
        match event {
            EvmEvent::NewCommitment { .. } => true,
            _ => false,
        }
    }

    /// Handles one new-commitment event: builds one proposal per linked
    /// anchor other than the source, dispatches them, and records the
    /// event's digest once every dispatch succeeded.
    pub fn handle_event(
        &self,
        store: &mut MemStore,
        src: &ResourceId,
        leaf_index: u32,
        commitment: &Vec<u8>,
        merkle_root: &Vec<u8>,
        linked: &Vec<ResourceId>,
        now: u64,
        ttl_ms: u64,
    ) -> (res: Result<bool, RelayerError>)
        requires
            old(store).wf(),
            commitment@.len() == 32,
            merkle_root@.len() == 32,
            forall|i: int| 0 <= i < linked@.len() ==> spec_resource_wf(#[trigger] linked@[i]@),
            spec_selector_wf(self.proposal_signing_backend),
        ensures
            final(store).wf(),
            ({
                let d = spec_event_bytes(
                    EvmEventView::NewCommitment {
                        index: leaf_index,
                        commitment: commitment@,
                        encrypted_output: Seq::empty(),
                    },
                );
                let ps = spec_build_proposals(
                    src@,
                    merkle_root@,
                    leaf_index,
                    spec_rids_view(linked@),
                );
                &&& (old(store).spec_has_event(d) ==> res == Result::<bool, RelayerError>::Ok(
                    false,
                ) && *final(store) == *old(store))
                &&& (!old(store).spec_has_event(d) && res is Ok ==> res == Result::<
                    bool,
                    RelayerError,
                >::Ok(true) && final(store).spec_has_event(d))
                &&& (!old(store).spec_has_event(d) ==> {
                    &&& (self.proposal_signing_backend matches
                        ProposalSigningBackendSelector::Mocked(b) ==> ((res is Ok) == (forall|
                        i: int,
                    |
                        0 <= i < ps.len() && b.spec_known_bridge(
                            #[trigger] ps[i].header.resource_id,
                        ) ==> spec_proposal_sign_ok(b.private_key@, ps[i]))))
                    &&& (!(self.proposal_signing_backend is Mocked) ==> res is Ok)
                })
                &&& (forall|q2: QueueIdView| #![trigger final(store).spec_queue(q2)]
                    final(store).spec_queue(q2) == old(store).spec_queue(q2) || (exists|j: int|
                        0 <= j < ps.len() && q2 == spec_dispatch_queue(
                            self.proposal_signing_backend,
                            ps[j],
                        )))
            }),
            res is Err ==> final(store).event_hashes == old(store).event_hashes,
            final(store).leaves == old(store).leaves,
            final(store).encrypted_outputs == old(store).encrypted_outputs,
            final(store).checkpoints == old(store).checkpoints,
            final(store).deposit_blocks == old(store).deposit_blocks,
            final(store).proposals == old(store).proposals,
    {
        let empty: Vec<u8> = Vec::new();
        let ev = EvmEvent::NewCommitment {
            index: leaf_index,
            commitment: copy_bytes(commitment),
            encrypted_output: empty,
        };
        let digest = encode_event(&ev);
        if store.contains_event(&digest) {
            return Result::Ok(false);
        }
        let proposals = build_anchor_update_proposals(src, merkle_root, leaf_index, linked);
        let ghost ps = spec_build_proposals(
            src@,
            merkle_root@,
            leaf_index,
            spec_rids_view(linked@),
        );
        match dispatch_proposals(&self.proposal_signing_backend, store, &proposals, now, ttl_ms) {
            Result::Ok(_) => {
                let ghost mid = *store;
                store.store_event(&digest);
                proof {
                    assert forall|q2: QueueIdView| #![trigger store.spec_queue(q2)]
                        store.spec_queue(q2) == mid.spec_queue(q2) by {
                        assert(store.queues == mid.queues);
                    }
                    assert(ps.len() == proposals@.len());
                    assert forall|j: int|
                        0 <= j < ps.len() implies #[trigger] ps[j] == proposals@[j]@ by {
                        assert(Seq::new(proposals@.len(), |i: int| proposals@[i]@)[j]
                            == proposals@[j]@);
                    }
                    assert forall|q2: QueueIdView| #![trigger store.spec_queue(q2)]
                        store.spec_queue(q2) == old(store).spec_queue(q2) || (exists|j: int|
                            0 <= j < ps.len() && q2 == spec_dispatch_queue(
                                self.proposal_signing_backend,
                                ps[j],
                            )) by {
                        if store.spec_queue(q2) != old(store).spec_queue(q2) {
                            let j0 = choose|j: int|
                                0 <= j < proposals@.len() && q2 == spec_dispatch_queue(
                                    self.proposal_signing_backend,
                                    proposals@[j]@,
                                );
                            assert(ps[j0] == proposals@[j0]@);
                            assert(0 <= j0 < ps.len() && q2 == spec_dispatch_queue(
                                self.proposal_signing_backend,
                                ps[j0],
                            ));
                        }
                    }
                    match &self.proposal_signing_backend {
                        ProposalSigningBackendSelector::Mocked(b) => {
                            assert forall|i: int|
                                0 <= i < ps.len() && b.spec_known_bridge(
                                    #[trigger] ps[i].header.resource_id,
                                ) implies spec_queue_contains_key(
                                store.spec_queue(
                                    (QueueIdView::Bridge { bridge: ps[i].header.resource_id }),
                                ),
                                spec_mocked_command_key(b.private_key@, ps[i]),
                            ) by {
                                assert(ps[i] == proposals@[i]@);
                            }
                            assert forall|i: int|
                                0 <= i < ps.len() && b.spec_known_bridge(
                                    #[trigger] ps[i].header.resource_id,
                                ) implies spec_proposal_sign_ok(b.private_key@, ps[i]) by {
                                assert(ps[i] == proposals@[i]@);
                            }
                        },
                        ProposalSigningBackendSelector::Dkg(b) => {
                            assert forall|i: int| 0 <= i < ps.len() implies
                                spec_queue_contains_key(
                                store.spec_queue(
                                    (QueueIdView::Evm { chain_id: b.src_chain_id as u64 }),
                                ),
                                #[trigger] spec_vote_call_key(b.phase1_job_id@, ps[i]),
                            ) by {
                                assert(ps[i] == proposals@[i]@);
                            }
                        },
                        ProposalSigningBackendSelector::Disabled => {},
                    }
                }
                Result::Ok(true)
            },
            Result::Err(e) => {
                proof {
                    assert(ps.len() == proposals@.len());
                    assert forall|j: int|
                        0 <= j < ps.len() implies #[trigger] ps[j] == proposals@[j]@ by {
                        assert(Seq::new(proposals@.len(), |i: int| proposals@[i]@)[j]
                            == proposals@[j]@);
                    }
                    match &self.proposal_signing_backend {
                        ProposalSigningBackendSelector::Mocked(b) => {
                            let w = choose|w: int|
                                0 <= w < proposals@.len() && b.spec_known_bridge(
                                    #[trigger] proposals@[w]@.header.resource_id,
                                ) && !spec_proposal_sign_ok(b.private_key@, proposals@[w]@);
                            assert(ps[w] == proposals@[w]@);
                            assert(b.spec_known_bridge(ps[w].header.resource_id)
                                && !spec_proposal_sign_ok(b.private_key@, ps[w]));
                        },
                        _ => {},
                    }
                    assert forall|q2: QueueIdView| #![trigger store.spec_queue(q2)]
                        store.spec_queue(q2) == old(store).spec_queue(q2) || (exists|j: int|
                            0 <= j < ps.len() && q2 == spec_dispatch_queue(
                                self.proposal_signing_backend,
                                ps[j],
                            )) by {
                        if store.spec_queue(q2) != old(store).spec_queue(q2) {
                            let j0 = choose|j: int|
                                0 <= j < proposals@.len() && q2 == spec_dispatch_queue(
                                    self.proposal_signing_backend,
                                    proposals@[j]@,
                                );
                            assert(ps[j0] == proposals@[j0]@);
                            assert(0 <= j0 < ps.len() && q2 == spec_dispatch_queue(
                                self.proposal_signing_backend,
                                ps[j0],
                            ));
                        }
                    }
                }
                Result::Err(e)
            },
        }
    }
}

/// The signed-proposal watcher: when the governing set signs a proposal,
/// every signature bridge in the relayer's universe receives the execute
/// command.
pub struct ProposalHandlerWatcher {
    /// The resource ids of every configured signature bridge.
    pub bridges: Vec<ResourceId>,
}

impl ProposalHandlerWatcher {
    /// Builds the watcher over the configured signature bridges.
    pub fn new(bridges: Vec<ResourceId>) -> (r: ProposalHandlerWatcher)
        ensures
            r.bridges == bridges,
    {
        ProposalHandlerWatcher { bridges }
    }

    /// Handles one proposal-signed event: enqueues the execute command,
    /// keyed by the digest of data and signature, on every bridge's
    /// command queue.
    #[verifier::rlimit(60)]
    pub fn handle_event(
        &self,
        store: &mut MemStore,
        data: &Vec<u8>,
        signature: &Vec<u8>,
        now: u64,
        ttl_ms: u64,
    ) -> (res: Result<(), RelayerError>)
        requires
            old(store).wf(),
            data@.len() <= 0xffff_ffff,
        ensures
            final(store).wf(),
            res is Ok,
            forall|j: int|
                0 <= j < self.bridges@.len() ==> spec_queue_contains_key(
                    final(store).spec_queue(
                        (QueueIdView::Bridge { bridge: #[trigger] self.bridges@[j]@ }),
                    ),
                    spec_keccak512(data@ + signature@),
                ),
            forall|q2: QueueIdView| #![trigger final(store).spec_queue(q2)]
                final(store).spec_queue(q2) == old(store).spec_queue(q2) || (exists|j: int|
                    0 <= j < self.bridges@.len() && q2 == (QueueIdView::Bridge {
                        bridge: self.bridges@[j]@,
                    })),
            final(store).leaves == old(store).leaves,
            final(store).encrypted_outputs == old(store).encrypted_outputs,
            final(store).checkpoints == old(store).checkpoints,
            final(store).deposit_blocks == old(store).deposit_blocks,
            final(store).event_hashes == old(store).event_hashes,
            final(store).proposals == old(store).proposals,
    {
        let key = crate::signing::bridge_command_key(data, signature);
        let payload = crate::signing::encode_bridge_command(data, signature);
        let n = self.bridges.len();
        let mut i: usize = 0;
        while i < n
            invariant
                i <= n,
                n == self.bridges@.len(),
                key@ == spec_keccak512(data@ + signature@),
                key@.len() == 64,
                payload@ == spec_command_bytes(data@, signature@),
                store.wf(),
                forall|j: int|
                    0 <= j < i ==> spec_queue_contains_key(
                        store.spec_queue(
                            (QueueIdView::Bridge { bridge: #[trigger] self.bridges@[j]@ }),
                        ),
                        spec_keccak512(data@ + signature@),
                    ),
                forall|q2: QueueIdView| #![trigger store.spec_queue(q2)]
                    store.spec_queue(q2) == old(store).spec_queue(q2) || (exists|j: int|
                        0 <= j < i && q2 == (QueueIdView::Bridge {
                            bridge: self.bridges@[j]@,
                        })),
                store.leaves == old(store).leaves,
                store.encrypted_outputs == old(store).encrypted_outputs,
                store.checkpoints == old(store).checkpoints,
                store.deposit_blocks == old(store).deposit_blocks,
                store.event_hashes == old(store).event_hashes,
                store.proposals == old(store).proposals,
            decreases n - i,
        {
            let q = crate::queue::QueueId::Bridge {
                bridge: clone_resource_id(&self.bridges[i]),
            };
            let item = crate::queue::QueueItem::new(
                copy_bytes(&key),
                copy_bytes(&payload),
                now,
                ttl_ms,
            );
            let ghost mid = *store;
            let enq = store.enqueue_item(&q, item);
            proof {
                let bq = (QueueIdView::Bridge { bridge: self.bridges@[i as int]@ });
                let itv = (crate::queue::QueueItemView {
                    key: key@,
                    payload: payload@,
                    state: crate::queue::QueueStateView::Pending,
                    created_at: now,
                    ttl_ms,
                });
                crate::queue::lemma_enqueue_contains(mid.spec_queue(bq), itv);
                assert forall|j: int| 0 <= j < i + 1 implies spec_queue_contains_key(
                    store.spec_queue(
                        (QueueIdView::Bridge { bridge: #[trigger] self.bridges@[j]@ }),
                    ),
                    spec_keccak512(data@ + signature@),
                ) by {
                    let qj = (QueueIdView::Bridge { bridge: self.bridges@[j]@ });
                    if j < i && qj == bq {
                        assert(spec_queue_contains_key(
                            mid.spec_queue(qj),
                            spec_keccak512(data@ + signature@),
                        ));
                    }
                }
            }
            i += 1;
        }
        Result::Ok(())
    }
}


/// Handles one Substrate transaction event carrying a batch of leaves: the
/// chain reports the next free leaf index, so the batch starts
/// `leafs.len()` positions before it. The batch must continue the cached
/// contiguous sequence exactly; otherwise nothing is written.
#[verifier::loop_isolation(false)]
pub fn handle_substrate_leaves_event(
    store: &mut MemStore,
    src: &ResourceId,
    next_leaf_index: u32,
    leafs: &Vec<Vec<u8>>,
    block_number: u64,
) -> (res: Result<(), RelayerError>)
    requires
        old(store).wf(),
        forall|i: int| 0 <= i < leafs@.len() ==> #[trigger] leafs@[i]@.len() == 32,
        leafs@.len() <= 0xffff_ffff,
    ensures
        final(store).wf(),
        ({
            let cnt = leafs@.len() as int;
            let start: int = if next_leaf_index >= cnt {
                next_leaf_index - cnt
            } else {
                0
            };
            &&& (cnt == 0 ==> res is Ok && *final(store) == *old(store))
            &&& (cnt > 0 ==> (res is Ok) == (start == old(store).spec_leaves(src@).len()))
            &&& (cnt > 0 && res is Ok ==> final(store).spec_leaves(src@) == old(
                store,
            ).spec_leaves(src@) + Seq::new(
                cnt as nat,
                |i: int| ((start + i) as u32, leafs@[i]@),
            ) && final(store).spec_deposit_block(src@) == Some(block_number))
            &&& (res is Err ==> *final(store) == *old(store))
        }),
        res is Ok ==> forall|r2: ResourceIdView|
            r2 != src@ ==> #[trigger] final(store).spec_leaves(r2) == old(store).spec_leaves(r2),
        final(store).encrypted_outputs == old(store).encrypted_outputs,
        final(store).checkpoints == old(store).checkpoints,
        final(store).event_hashes == old(store).event_hashes,
        final(store).queues == old(store).queues,
        final(store).proposals == old(store).proposals,
{
    let cnt = leafs.len();
    if cnt == 0 {
        return Result::Ok(());
    }
    let start: u32 = if next_leaf_index as usize >= cnt {
        next_leaf_index - cnt as u32
    } else {
        0
    };
    let mut batch: Vec<(u32, Vec<u8>)> = Vec::new();
    let mut i: usize = 0;
    while i < cnt
        invariant
            i <= cnt,
            start as int + cnt <= 0x1_0000_0000,
            batch@.len() == i,
            forall|k: int| 0 <= k < i ==> #[trigger] batch@[k].0 == (start + k) as u32,
            forall|k: int| 0 <= k < i ==> #[trigger] batch@[k].1@ == leafs@[k]@,
        decreases cnt - i,
    {
        batch.push((start + i as u32, crate::bytes::copy_bytes(&leafs[i])));
        proof {
            assert(batch@[i as int].1@ == leafs@[i as int]@);
            assert(batch@[i as int].0 == (start + i) as u32);
        }
        i += 1;
    }
    let ghost batchg = batch@;
    proof {
        assert(batchg.len() == cnt);
        assert(batchg[0].0 == start);
        assert forall|k: int| 0 <= k < batchg.len() implies #[trigger] batchg[k].1@.len()
            == 32 by {
            assert(batchg[k].1@ == leafs@[k]@);
            assert(leafs@[k]@.len() == 32);
        }
    }
    match store.insert_leaves(src, batch) {
        Result::Ok(_) => {
            let ghost mid = *store;
            proof {
                assert(spec_pairs_view(batchg) =~= Seq::new(
                    leafs@.len(),
                    |k: int| ((start + k) as u32, leafs@[k]@),
                ));
            }
            let prev = store.insert_last_deposit_block_number(src, block_number);
            proof {
                assert forall|r2: ResourceIdView| r2 != src@ implies #[trigger] store.spec_leaves(
                    r2,
                ) == old(store).spec_leaves(r2) by {
                    assert(mid.spec_leaves(r2) == old(store).spec_leaves(r2));
                    assert(store.leaves == mid.leaves);
                }
                assert(store.spec_leaves(src@) == mid.spec_leaves(src@));
            }
            Result::Ok(())
        },
        Result::Err(e) => Result::Err(e),
    }
}

/// Handles one Substrate transaction event's pair of encrypted outputs,
/// placed `leaf_count` positions before the chain's next free leaf index.
pub fn handle_substrate_encrypted_output_event(
    store: &mut MemStore,
    src: &ResourceId,
    next_leaf_index: u32,
    leaf_count: u32,
    encrypted_output1: &Vec<u8>,
    encrypted_output2: &Vec<u8>,
    block_number: u64,
) -> (res: Result<(), RelayerError>)
    requires
        old(store).wf(),
    ensures
        final(store).wf(),
        ({
            let start: int = if next_leaf_index >= leaf_count {
                next_leaf_index - leaf_count
            } else {
                0
            };
            &&& (start < 0xffff_ffff ==> (res is Ok) == (start == old(store).spec_outputs(
                src@,
            ).len()))
            &&& (start == 0xffff_ffff ==> res is Err)
            &&& (res is Ok ==> final(store).spec_outputs(src@) == old(store).spec_outputs(
                src@,
            ).push((start as u32, encrypted_output1@)).push(
                ((start + 1) as u32, encrypted_output2@),
            ) && final(store).spec_deposit_block(src@) == Some(block_number))
            &&& (res is Err ==> *final(store) == *old(store))
        }),
        res matches Err(e) ==> e == RelayerError::NonContiguousLeaves,
        final(store).leaves == old(store).leaves,
        final(store).checkpoints == old(store).checkpoints,
        final(store).event_hashes == old(store).event_hashes,
        final(store).queues == old(store).queues,
        final(store).proposals == old(store).proposals,
{
    let start: u32 = if next_leaf_index >= leaf_count {
        next_leaf_index - leaf_count
    } else {
        0
    };
    if start == 0xffff_ffff {
        return Result::Err(RelayerError::NonContiguousLeaves);
    }
    let mut batch: Vec<(u32, Vec<u8>)> = Vec::new();
    batch.push((start, copy_bytes(encrypted_output1)));
    batch.push((start + 1, copy_bytes(encrypted_output2)));
    let ghost batchg = batch@;
    proof {
        assert(batchg.len() == 2);
        assert(batchg[0].0 == start);
        assert(batchg[1].0 == start + 1);
    }
    match store.insert_encrypted_output(src, batch) {
        Result::Ok(_) => {
            let ghost mid = *store;
            proof {
                assert(old(store).spec_outputs(src@) + spec_pairs_view(batchg) =~= old(
                    store,
                ).spec_outputs(src@).push((start, encrypted_output1@)).push(
                    ((start + 1) as u32, encrypted_output2@),
                ));
            }
            let prev = store.insert_last_deposit_block_number(src, block_number);
            proof {
                assert(store.spec_outputs(src@) == mid.spec_outputs(src@));
            }
            Result::Ok(())
        },
        Result::Err(e) => Result::Err(e),
    }
}


/// What one insertion event does to the leaf cache, the event-hash set,
/// the last deposit block and the applied count: a digest already seen
/// changes nothing; a fresh event whose index continues the cache appends
/// its leaf, records the block, enters the set and counts; a fresh event
/// that breaks the sequence changes nothing.
pub open spec fn spec_insertion_step(
    st: (Seq<(u32, Seq<u8>)>, Set<Seq<u8>>, Option<u64>, int),
    ev: (u32, Seq<u8>),
    block: u64,
) -> (Seq<(u32, Seq<u8>)>, Set<Seq<u8>>, Option<u64>, int) {
    let d = spec_event_bytes(EvmEventView::Insertion { leaf_index: ev.0, commitment: ev.1 });
    if st.1.contains(d) {
        st
    } else if ev.0 == st.0.len() {
        (st.0.push(ev), st.1.insert(d), Some(block), st.3 + 1)
    } else {
        st
    }
}

/// One polling round's batch, folded event by event over the cache state.
pub open spec fn spec_insertion_fold(
    st: (Seq<(u32, Seq<u8>)>, Set<Seq<u8>>, Option<u64>, int),
    events: Seq<(u32, Seq<u8>)>,
    block: u64,
) -> (Seq<(u32, Seq<u8>)>, Set<Seq<u8>>, Option<u64>, int)
    decreases events.len(),
{
    if events.len() == 0 {
        st
    } else {
        spec_insertion_step(spec_insertion_fold(st, events.drop_last(), block), events.last(), block)
    }
}

/// One polling round's batch of insertion events, applied in order with
/// digest gating, then the checkpoint advanced to the round's upper end.
/// The final leaf cache, event-hash set and deposit block are exactly the
/// fold of the batch over what the store held, and the answer counts the
/// events that were applied. The leaf cache only ever grows: what was
/// cached before the batch reads the same after it.
#[verifier::loop_isolation(false)]
pub fn process_insertion_batch(
    store: &mut MemStore,
    src: &ResourceId,
    events: &Vec<(u32, Vec<u8>)>,
    to: u64,
) -> (n_applied: usize)
    requires
        old(store).wf(),
        forall|i: int| 0 <= i < events@.len() ==> #[trigger] events@[i].1@.len() == 32,
    ensures
        final(store).wf(),
        final(store).spec_checkpoint(src@) == Some(to),
        forall|r2: ResourceIdView|
            r2 != src@ ==> #[trigger] final(store).spec_checkpoint(r2) == old(
                store,
            ).spec_checkpoint(r2),
        forall|r: ResourceIdView|
            #[trigger] old(store).spec_leaves(r).len() <= final(store).spec_leaves(r).len(),
        forall|r: ResourceIdView, i: int|
            0 <= i < old(store).spec_leaves(r).len() ==> #[trigger] final(store).spec_leaves(
                r,
            )[i] == old(store).spec_leaves(r)[i],
        forall|d: Seq<u8>|
            #[trigger] old(store).spec_has_event(d) ==> final(store).spec_has_event(d),
        ({
            let st = spec_insertion_fold(
                (
                    old(store).spec_leaves(src@),
                    Set::new(|d: Seq<u8>| old(store).spec_has_event(d)),
                    old(store).spec_deposit_block(src@),
                    0int,
                ),
                spec_pairs_view(events@),
                to,
            );
            &&& final(store).spec_leaves(src@) == st.0
            &&& (forall|d: Seq<u8>| #[trigger] final(store).spec_has_event(d) <==> st.1.contains(d))
            &&& final(store).spec_deposit_block(src@) == st.2
            &&& n_applied as int == st.3
        }),
        forall|r2: ResourceIdView|
            r2 != src@ ==> #[trigger] final(store).spec_deposit_block(r2) == old(
                store,
            ).spec_deposit_block(r2),
        final(store).encrypted_outputs == old(store).encrypted_outputs,
        final(store).queues == old(store).queues,
        final(store).proposals == old(store).proposals,
{
    let ghost init = (
        old(store).spec_leaves(src@),
        Set::new(|d: Seq<u8>| old(store).spec_has_event(d)),
        old(store).spec_deposit_block(src@),
        0int,
    );
    let ghost pv = spec_pairs_view(events@);
    let n = events.len();
    let mut i: usize = 0;
    let mut applied: usize = 0;
    proof {
        assert(pv.take(0int) =~= Seq::<(u32, Seq<u8>)>::empty());
        assert forall|d: Seq<u8>| #[trigger] store.spec_has_event(d) <==> init.1.contains(d) by {}
    }
    while i < n
        invariant
            i <= n,
            applied <= i,
            store.wf(),
            ({
                let st = spec_insertion_fold(init, pv.take(i as int), to);
                &&& store.spec_leaves(src@) == st.0
                &&& (forall|d: Seq<u8>| #[trigger] store.spec_has_event(d) <==> st.1.contains(d))
                &&& store.spec_deposit_block(src@) == st.2
                &&& applied as int == st.3
            }),
            forall|r2: ResourceIdView|
                r2 != src@ ==> #[trigger] store.spec_deposit_block(r2) == old(
                    store,
                ).spec_deposit_block(r2),
            forall|r: ResourceIdView|
                #[trigger] old(store).spec_leaves(r).len() <= store.spec_leaves(r).len(),
            forall|r: ResourceIdView, j: int|
                0 <= j < old(store).spec_leaves(r).len() ==> #[trigger] store.spec_leaves(r)[j]
                    == old(store).spec_leaves(r)[j],
            forall|d: Seq<u8>|
                #[trigger] old(store).spec_has_event(d) ==> store.spec_has_event(d),
            store.encrypted_outputs == old(store).encrypted_outputs,
            store.checkpoints == old(store).checkpoints,
            store.queues == old(store).queues,
            store.proposals == old(store).proposals,
        decreases n - i,
    {
        let ghost mid = *store;
        let r = handle_leaves_event_once(store, src, events[i].0, &events[i].1, to);
        let ok = match r {
            Result::Ok(true) => true,
            _ => false,
        };
        if ok {
            applied += 1;
        }
        proof {
            let st_prev = spec_insertion_fold(init, pv.take(i as int), to);
            let ev = pv[i as int];
            let d = spec_event_bytes(
                EvmEventView::Insertion {
                    leaf_index: events@[i as int].0,
                    commitment: events@[i as int].1@,
                },
            );
            assert(pv.take(i + 1).drop_last() =~= pv.take(i as int));
            assert(pv.take(i + 1).last() == ev);
            assert(ev == (events@[i as int].0, events@[i as int].1@));
            if st_prev.1.contains(d) {
                assert(mid.spec_has_event(d));
                assert(*store == mid);
            } else {
                assert(!mid.spec_has_event(d));
                if events@[i as int].0 == st_prev.0.len() {
                    assert(store.spec_leaves(src@) == st_prev.0.push(ev));
                    assert forall|d2: Seq<u8>| #[trigger] store.spec_has_event(d2)
                        <==> st_prev.1.insert(d).contains(d2) by {
                        if d2 != d {
                            assert(store.spec_has_event(d2) == mid.spec_has_event(d2));
                        }
                    }
                } else {
                    assert(*store == mid);
                }
            }
            assert(spec_insertion_fold(init, pv.take(i + 1), to) == spec_insertion_step(
                st_prev,
                ev,
                to,
            ));
            assert forall|r2: ResourceIdView|
                #[trigger] old(store).spec_leaves(r2).len() <= store.spec_leaves(r2).len() by {
                if r2 != src@ {
                    assert(store.spec_leaves(r2) == mid.spec_leaves(r2));
                } else {
                    assert(mid.spec_leaves(r2).len() <= store.spec_leaves(r2).len());
                }
            }
            assert forall|r2: ResourceIdView, j: int|
                0 <= j < old(store).spec_leaves(r2).len() implies #[trigger] store.spec_leaves(
                r2,
            )[j] == old(store).spec_leaves(r2)[j] by {
                if r2 != src@ {
                    assert(store.spec_leaves(r2) == mid.spec_leaves(r2));
                } else {
                    assert(mid.spec_leaves(r2)[j] == old(store).spec_leaves(r2)[j]);
                    assert(store.spec_leaves(r2)[j] == mid.spec_leaves(r2)[j]);
                }
            }
            assert forall|d: Seq<u8>|
                #[trigger] old(store).spec_has_event(d) implies store.spec_has_event(d) by {
                assert(mid.spec_has_event(d));
            }
        }
        i += 1;
    }
    let ghost mid2 = *store;
    let prev = store.set_last_block_number(src, to);
    proof {
        assert(pv.take(n as int) =~= pv);
        assert forall|r2: ResourceIdView|
            #[trigger] old(store).spec_leaves(r2).len() <= store.spec_leaves(r2).len() by {
            assert(store.leaves == mid2.leaves);
        }
        assert forall|r2: ResourceIdView, j: int|
            0 <= j < old(store).spec_leaves(r2).len() implies #[trigger] store.spec_leaves(
            r2,
        )[j] == old(store).spec_leaves(r2)[j] by {
            assert(store.leaves == mid2.leaves);
            assert(store.spec_leaves(r2) == mid2.spec_leaves(r2));
        }
        assert forall|d: Seq<u8>|
            #[trigger] old(store).spec_has_event(d) implies store.spec_has_event(d) by {
            assert(store.event_hashes == mid2.event_hashes);
            assert(store.spec_has_event(d) == mid2.spec_has_event(d));
        }
        assert(store.spec_leaves(src@) == mid2.spec_leaves(src@)) by {
            assert(store.leaves == mid2.leaves);
        }
        assert forall|d: Seq<u8>| #[trigger] store.spec_has_event(d) <==> mid2.spec_has_event(
            d,
        ) by {
            assert(store.event_hashes == mid2.event_hashes);
        }
        assert(store.spec_deposit_block(src@) == mid2.spec_deposit_block(src@)) by {
            assert(store.deposit_blocks == mid2.deposit_blocks);
        }
        assert forall|r2: ResourceIdView|
            r2 != src@ implies #[trigger] store.spec_deposit_block(r2) == old(
            store,
        ).spec_deposit_block(r2) by {
            assert(store.spec_deposit_block(r2) == mid2.spec_deposit_block(r2)) by {
                assert(store.deposit_blocks == mid2.deposit_blocks);
            }
        }
    }
    applied
}

} // verus!
