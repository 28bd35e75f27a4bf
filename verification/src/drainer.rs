//! The queue drainer's decision core.
//!
//! One drainer owns one queue. Each tick it inspects the head: an expired
//! item is reaped, a non-pending item rotates to the tail so later items are
//! served, and a pending item moves into processing and is handed out for
//! submission. The outcomes of the dry run, the submission and the status
//! stream are recorded back through the functions below; the surrounding
//! loop performs the network work and sleeps a randomized interval between
//! rounds so racing relayers desynchronize.

use vstd::prelude::*;

use rand::Rng;

use crate::bytes::copy_bytes;
use crate::lookup::lemma_find_at;
use crate::queue::{
    spec_item_expired, spec_queue_find_key, ProcessingStep, QueueId, QueueIdView, QueueItemState,
    QueueItemView, QueueStateView,
};
use crate::store::MemStore;
use crate::RelayerError;

verus! {

/// What one drainer tick decided.
#[derive(Debug)]
pub enum DrainAction {
    /// The queue is empty; sleep and look again.
    Sleep,
    /// The head had outlived its TTL and was removed without submission.
    Reaped,
    /// The head was not pending; it rotated to the tail.
    Rotated,
    /// The head moved into processing; submit this payload under this key.
    Submit { key: Vec<u8>, payload: Vec<u8> },
}

/// The state a freshly picked item enters.
pub open spec fn spec_picked_state() -> QueueStateView {
    QueueStateView::Processing { step: ProcessingStep::Picked, progress: 0 }
}

/// Inspects the head of queue `q` at time `now` and advances the queue one
/// step: reap an expired head, rotate a non-pending head, or pick a pending
/// head for submission.
pub fn drain_tick(store: &mut MemStore, q: &QueueId, now: u64) -> (a: DrainAction)
    requires
        old(store).wf(),
    ensures
        final(store).wf(),
        old(store).spec_queue(q@).len() == 0 ==> a is Sleep && *final(store) == *old(store),
        old(store).spec_queue(q@).len() > 0 ==> ({
            let h = old(store).spec_queue(q@)[0];
            &&& (spec_item_expired(h, now) ==> a is Reaped && final(store).spec_queue(q@)
                == old(store).spec_queue(q@).drop_first())
            &&& (!spec_item_expired(h, now) && !(h.state is Pending) ==> a is Rotated
                && final(store).spec_queue(q@) == old(store).spec_queue(q@).drop_first().push(h))
            &&& (!spec_item_expired(h, now) && h.state is Pending ==> (a matches
                DrainAction::Submit { key, payload } && key@ == h.key && payload@ == h.payload)
                && final(store).spec_queue(q@) == old(store).spec_queue(q@).update(
                0,
                (QueueItemView { state: spec_picked_state(), ..h }),
            ))
        }),
        forall|q2: QueueIdView|
            q2 != q@ ==> #[trigger] final(store).spec_queue(q2) == old(store).spec_queue(q2),
        final(store).leaves == old(store).leaves,
        final(store).encrypted_outputs == old(store).encrypted_outputs,
        final(store).checkpoints == old(store).checkpoints,
        final(store).deposit_blocks == old(store).deposit_blocks,
        final(store).event_hashes == old(store).event_hashes,
        final(store).proposals == old(store).proposals,
{
    let ghost oldq = old(store).spec_queue(q@);
    let (key, payload, expired, pending) = match store.peek_item(q) {
        Option::None => {
            return DrainAction::Sleep;
        },
        Option::Some(it) => {
            let expired = it.is_expired(now);
            let pending = match it.state {
                QueueItemState::Pending => true,
                _ => false,
            };
            (copy_bytes(&it.key), copy_bytes(&it.payload), expired, pending)
        },
    };
    proof {
        lemma_find_at(oldq, |it: QueueItemView| it.key == oldq[0].key, 0);
        assert(spec_queue_find_key(oldq, key@) == 0);
    }
    if expired {
        let removed = store.remove_item(q, &key);
        proof {
            assert(oldq.remove(0) =~= oldq.drop_first());
        }
        DrainAction::Reaped
    } else if !pending {
        let shifted = store.shift_item_to_end(q, &key);
        proof {
            assert(oldq.remove(0) =~= oldq.drop_first());
        }
        DrainAction::Rotated
    } else {
        let picked = QueueItemState::Processing { step: ProcessingStep::Picked, progress: 0 };
        let updated = store.update_item_state(q, &key, picked);
        DrainAction::Submit { key, payload }
    }
}

/// Fair rotation: rotating a queue's head puts the item that sat behind
/// it at the head. With the drainer's tick this settles how a stuck head
/// is bypassed: a non-pending, unexpired head rotates to the tail, and
/// the next tick inspects — and, for a pending unexpired item, hands out
/// for submission — the formerly second item, before the rotated head is
/// reached again.
pub proof fn lemma_rotation_serves_next(q: Seq<QueueItemView>)
    requires
        q.len() >= 2,
    ensures
        q.drop_first().push(q[0])[0] == q[1],
        q.drop_first().push(q[0]).last() == q[0],
{
}

/// Records the outcome of the dry run of the item under `key`: on success
/// the item advances to the dry-run-passed step; on failure it turns Failed
/// with the given reason and rotates to the tail.
pub fn record_dry_run(
    store: &mut MemStore,
    q: &QueueId,
    key: &Vec<u8>,
    ok: bool,
    reason: String,
) -> (res: Result<(), RelayerError>)
    requires
        old(store).wf(),
    ensures
        final(store).wf(),
        (res is Ok) == crate::queue::spec_queue_contains_key(old(store).spec_queue(q@), key@),
        res is Ok ==> ({
            let i = spec_queue_find_key(old(store).spec_queue(q@), key@);
            let h = old(store).spec_queue(q@)[i];
            if ok {
                final(store).spec_queue(q@) == old(store).spec_queue(q@).update(
                    i,
                    (QueueItemView {
                        state: QueueStateView::Processing {
                            step: ProcessingStep::DryRunPassed,
                            progress: 30,
                        },
                        ..h
                    }),
                )
            } else {
                final(store).spec_queue(q@) == old(store).spec_queue(q@).remove(i).push(
                    (QueueItemView { state: QueueStateView::Failed { reason: reason@ }, ..h }),
                )
            }
        }),
        res is Err ==> *final(store) == *old(store),
        forall|q2: QueueIdView|
            q2 != q@ ==> #[trigger] final(store).spec_queue(q2) == old(store).spec_queue(q2),
        final(store).leaves == old(store).leaves,
        final(store).encrypted_outputs == old(store).encrypted_outputs,
        final(store).checkpoints == old(store).checkpoints,
        final(store).deposit_blocks == old(store).deposit_blocks,
        final(store).event_hashes == old(store).event_hashes,
        final(store).proposals == old(store).proposals,
{
    if ok {
        let state = QueueItemState::Processing {
            step: ProcessingStep::DryRunPassed,
            progress: 30,
        };
        store.update_item_state(q, key, state)
    } else {
        fail_and_rotate(store, q, key, reason)
    }
}

/// Marks the item under `key` as submitted on chain.
pub fn record_submitted(store: &mut MemStore, q: &QueueId, key: &Vec<u8>) -> (res: Result<
    (),
    RelayerError,
>)
    requires
        old(store).wf(),
    ensures
        final(store).wf(),
        (res is Ok) == crate::queue::spec_queue_contains_key(old(store).spec_queue(q@), key@),
        res is Ok ==> ({
            let i = spec_queue_find_key(old(store).spec_queue(q@), key@);
            final(store).spec_queue(q@) == old(store).spec_queue(q@).update(
                i,
                (QueueItemView {
                    state: QueueStateView::Processing {
                        step: ProcessingStep::Submitted,
                        progress: 40,
                    },
                    ..old(store).spec_queue(q@)[i]
                }),
            )
        }),
        res is Err ==> *final(store) == *old(store),
        forall|q2: QueueIdView|
            q2 != q@ ==> #[trigger] final(store).spec_queue(q2) == old(store).spec_queue(q2),
        final(store).leaves == old(store).leaves,
        final(store).encrypted_outputs == old(store).encrypted_outputs,
        final(store).checkpoints == old(store).checkpoints,
        final(store).deposit_blocks == old(store).deposit_blocks,
        final(store).event_hashes == old(store).event_hashes,
        final(store).proposals == old(store).proposals,
{
    let state = QueueItemState::Processing { step: ProcessingStep::Submitted, progress: 40 };
    store.update_item_state(q, key, state)
}

/// Marks the item under `key` as Failed with the given reason and rotates
/// it to the tail, so the items behind it are served before the retry.
pub fn fail_and_rotate(store: &mut MemStore, q: &QueueId, key: &Vec<u8>, reason: String) -> (res:
    Result<(), RelayerError>)
    requires
        old(store).wf(),
    ensures
        final(store).wf(),
        (res is Ok) == crate::queue::spec_queue_contains_key(old(store).spec_queue(q@), key@),
        res is Ok ==> ({
            let i = spec_queue_find_key(old(store).spec_queue(q@), key@);
            let h = old(store).spec_queue(q@)[i];
            final(store).spec_queue(q@) == old(store).spec_queue(q@).remove(i).push(
                (QueueItemView { state: QueueStateView::Failed { reason: reason@ }, ..h }),
            )
        }),
        res is Err ==> *final(store) == *old(store),
        forall|q2: QueueIdView|
            q2 != q@ ==> #[trigger] final(store).spec_queue(q2) == old(store).spec_queue(q2),
        final(store).leaves == old(store).leaves,
        final(store).encrypted_outputs == old(store).encrypted_outputs,
        final(store).checkpoints == old(store).checkpoints,
        final(store).deposit_blocks == old(store).deposit_blocks,
        final(store).event_hashes == old(store).event_hashes,
        final(store).proposals == old(store).proposals,
{
    let ghost oldq = old(store).spec_queue(q@);
    let state = QueueItemState::Failed { reason };
    let updated = store.update_item_state(q, key, state);
    match updated {
        Result::Ok(_) => {
            let ghost q1 = store.spec_queue(q@);
            let ghost i = spec_queue_find_key(oldq, key@);
            proof {
                crate::lookup::lemma_find_props(oldq, |it: QueueItemView| it.key == key@);
                assert(oldq[i].key == key@);
                assert(q1[i].key == key@);
                assert(crate::queue::spec_queue_contains_key(q1, key@));
                crate::lookup::lemma_find_update(
                    oldq,
                    |it: QueueItemView| it.key == key@,
                    i,
                    q1[i],
                );
                assert(oldq.update(i, q1[i]) == q1);
            }
            let shifted = store.shift_item_to_end(q, key);
            proof {
                assert(shifted is Ok);
                assert(q1.remove(i) =~= oldq.remove(i));
            }
            Result::Ok(())
        },
        Result::Err(e) => Result::Err(e),
    }
}

/// The states of a submitted transaction that the chain reports back.
#[derive(Clone, Copy, Debug, PartialEq, Eq, Structural)]
pub enum TxStatus {
    Future,
    Ready,
    Broadcast,
    InBlock,
    Retracted,
    FinalityTimeout,
    Finalized,
    Usurped,
    Dropped,
    Invalid,
}

/// The item state a status report moves an item into, if any: the progress
/// ladder for the in-flight states, Finalized for the terminal success, and
/// no change for the reports the drainer only observes.
pub open spec fn spec_status_state(s: TxStatus) -> Option<QueueStateView> {
    match s {
        TxStatus::Future => Some(
            QueueStateView::Processing { step: ProcessingStep::StatusFuture, progress: 50 },
        ),
        TxStatus::Ready => Some(
            QueueStateView::Processing { step: ProcessingStep::StatusReady, progress: 60 },
        ),
        TxStatus::Broadcast => Some(
            QueueStateView::Processing { step: ProcessingStep::StatusBroadcast, progress: 70 },
        ),
        TxStatus::InBlock => Some(
            QueueStateView::Processing { step: ProcessingStep::StatusInBlock, progress: 80 },
        ),
        TxStatus::Finalized => Some(QueueStateView::Finalized),
        _ => None,
    }
}

/// Records one report from the status stream of the item under `key`. The
/// item reaches Finalized exactly on the terminal success report, and then
/// stays in the store for the TTL to reap.
pub fn record_status(store: &mut MemStore, q: &QueueId, key: &Vec<u8>, status: TxStatus) -> (res:
    Result<(), RelayerError>)
    requires
        old(store).wf(),
    ensures
        final(store).wf(),
        spec_status_state(status) is None ==> *final(store) == *old(store) && res is Ok,
        spec_status_state(status) is Some ==> (res is Ok)
            == crate::queue::spec_queue_contains_key(old(store).spec_queue(q@), key@),
        res is Ok && spec_status_state(status) is Some ==> ({
            let i = spec_queue_find_key(old(store).spec_queue(q@), key@);
            final(store).spec_queue(q@) == old(store).spec_queue(q@).update(
                i,
                (QueueItemView {
                    state: spec_status_state(status).unwrap(),
                    ..old(store).spec_queue(q@)[i]
                }),
            )
        }),
        res is Err ==> *final(store) == *old(store),
        forall|q2: QueueIdView|
            q2 != q@ ==> #[trigger] final(store).spec_queue(q2) == old(store).spec_queue(q2),
        final(store).leaves == old(store).leaves,
        final(store).encrypted_outputs == old(store).encrypted_outputs,
        final(store).checkpoints == old(store).checkpoints,
        final(store).deposit_blocks == old(store).deposit_blocks,
        final(store).event_hashes == old(store).event_hashes,
        final(store).proposals == old(store).proposals,
{
    let state = match status {
        TxStatus::Future => QueueItemState::Processing {
            step: ProcessingStep::StatusFuture,
            progress: 50,
        },
        TxStatus::Ready => QueueItemState::Processing {
            step: ProcessingStep::StatusReady,
            progress: 60,
        },
        TxStatus::Broadcast => QueueItemState::Processing {
            step: ProcessingStep::StatusBroadcast,
            progress: 70,
        },
        TxStatus::InBlock => QueueItemState::Processing {
            step: ProcessingStep::StatusInBlock,
            progress: 80,
        },
        TxStatus::Finalized => QueueItemState::Finalized,
        _ => {
            return Result::Ok(());
        },
    };
    store.update_item_state(q, key, state)
}

/// The extrinsic queue drainer of one Substrate chain: it holds the chain
/// id and the sleep bound; the decisions are those of `drain_tick` and the
/// record functions.
#[derive(Clone, Copy, Debug, PartialEq, Eq, Structural)]
pub struct SubstrateTxQueue {
    /// The chain whose queue this drainer owns.
    pub chain_id: u64,
    /// Upper bound, in milliseconds, on the randomized sleep between
    /// rounds.
    pub max_sleep_interval: u64,
}

impl SubstrateTxQueue {
    /// Builds the drainer of one chain's extrinsic queue.
    pub fn new(chain_id: u64, max_sleep_interval: u64) -> (r: SubstrateTxQueue)
        ensures
            r.chain_id == chain_id,
            r.max_sleep_interval == max_sleep_interval,
    {
        SubstrateTxQueue { chain_id, max_sleep_interval }
    }

    /// The queue this drainer owns.
    pub fn queue_id(&self) -> (r: QueueId)
        ensures
            r@ == (QueueIdView::Substrate { chain_id: self.chain_id }),
    {
        QueueId::Substrate { chain_id: self.chain_id }
    }

    /// One drainer round over this chain's queue: exactly a `drain_tick`
    /// of the chain's extrinsic queue.
    pub fn tick(&self, store: &mut MemStore, now: u64) -> (a: DrainAction)
        requires
            old(store).wf(),
        ensures
            final(store).wf(),
            ({
                let q = (QueueIdView::Substrate { chain_id: self.chain_id });
                &&& (old(store).spec_queue(q).len() == 0 ==> a is Sleep && *final(store) == *old(
                    store,
                ))
                &&& (old(store).spec_queue(q).len() > 0 ==> {
                    let h = old(store).spec_queue(q)[0];
                    &&& (spec_item_expired(h, now) ==> a is Reaped && final(store).spec_queue(q)
                        == old(store).spec_queue(q).drop_first())
                    &&& (!spec_item_expired(h, now) && !(h.state is Pending) ==> a is Rotated
                        && final(store).spec_queue(q) == old(store).spec_queue(
                        q,
                    ).drop_first().push(h))
                    &&& (!spec_item_expired(h, now) && h.state is Pending ==> (a matches
                        DrainAction::Submit { key, payload } && key@ == h.key && payload@
                        == h.payload) && final(store).spec_queue(q) == old(store).spec_queue(
                        q,
                    ).update(0, (QueueItemView { state: spec_picked_state(), ..h })))
                })
                &&& (forall|q2: QueueIdView|
                    q2 != q ==> #[trigger] final(store).spec_queue(q2) == old(store).spec_queue(
                        q2,
                    ))
            }),
            final(store).leaves == old(store).leaves,
            final(store).encrypted_outputs == old(store).encrypted_outputs,
            final(store).checkpoints == old(store).checkpoints,
            final(store).deposit_blocks == old(store).deposit_blocks,
            final(store).event_hashes == old(store).event_hashes,
            final(store).proposals == old(store).proposals,
    {
        let q = self.queue_id();
        drain_tick(store, &q, now)
    }
}

/// Relies on rand's `thread_rng` and `Rng::gen_range`: a value drawn from
/// the inclusive range; nothing but its bounds is promised of the outcome.
#[verifier::external_body]
fn random_in_range(lo: u64, hi: u64) -> (r: u64)
    requires
        lo <= hi,
    ensures
        lo <= r <= hi,
{
    rand::thread_rng().gen_range(lo..=hi)
}

/// The randomized pause before the next drainer round: at least one second,
/// at most `max_sleep_interval` once that bound exceeds a second.
pub fn next_sleep_ms(max_sleep_interval: u64) -> (r: u64)
    ensures
        1000 <= r,
        r <= (if max_sleep_interval < 1000 {
            1000u64
        } else {
            max_sleep_interval
        }),
{
    let hi = if max_sleep_interval < 1000 {
        1000
    } else {
        max_sleep_interval
    };
    random_in_range(1000, hi)
}


/// One round of the bridge executor, the drainer variant that consumes
/// bridge commands: it takes the head command of one signature bridge's
/// queue, derives the execute transaction's key from the digest of data
/// and signature, and queues the transaction on the bridge's chain. A
/// command whose payload does not decode is dropped with a decode fault.
pub fn execute_bridge_command(
    store: &mut MemStore,
    bridge: &crate::proposals::ResourceId,
    chain_id: u64,
    now: u64,
    ttl_ms: u64,
) -> (res: Result<bool, RelayerError>)
    requires
        old(store).wf(),
    ensures
        final(store).wf(),
        ({
            let bq = (QueueIdView::Bridge { bridge: bridge@ });
            let tq = (QueueIdView::Evm { chain_id });
            &&& (old(store).spec_queue(bq).len() == 0 ==> res == Result::<
                bool,
                RelayerError,
            >::Ok(false) && *final(store) == *old(store))
            &&& (old(store).spec_queue(bq).len() > 0 ==> {
                let h = old(store).spec_queue(bq)[0];
                &&& final(store).spec_queue(bq) == old(store).spec_queue(bq).drop_first()
                &&& match crate::signing::spec_decode_command(h.payload) {
                    Some(cmd) => {
                        &&& res == Result::<bool, RelayerError>::Ok(true)
                        &&& (cmd matches
                            crate::signing::BridgeCommandView::ExecuteProposalWithSignature {
                                data,
                                signature,
                            } ==> final(store).spec_queue(tq) == crate::queue::spec_enqueue(
                            old(store).spec_queue(tq),
                            (QueueItemView {
                                key: crate::signing::spec_keccak512(data + signature),
                                payload: h.payload,
                                state: QueueStateView::Pending,
                                created_at: now,
                                ttl_ms,
                            }),
                        ))
                    },
                    None => res == Result::<bool, RelayerError>::Err(RelayerError::Decode)
                        && (bq != tq ==> final(store).spec_queue(tq) == old(store).spec_queue(
                        tq,
                    )),
                }
            })
            &&& (forall|q2: QueueIdView|
                q2 != bq && q2 != tq ==> #[trigger] final(store).spec_queue(q2) == old(
                    store,
                ).spec_queue(q2))
        }),
        final(store).leaves == old(store).leaves,
        final(store).encrypted_outputs == old(store).encrypted_outputs,
        final(store).checkpoints == old(store).checkpoints,
        final(store).deposit_blocks == old(store).deposit_blocks,
        final(store).event_hashes == old(store).event_hashes,
        final(store).proposals == old(store).proposals,
{
    let bq = QueueId::Bridge { bridge: crate::proposals::clone_resource_id(bridge) };
    let head = match store.dequeue_item(&bq) {
        Option::Some(it) => it,
        Option::None => {
            return Result::Ok(false);
        },
    };
    let cmd = match crate::signing::decode_bridge_command(&head.payload) {
        Option::Some(c) => c,
        Option::None => {
            return Result::Err(RelayerError::Decode);
        },
    };
    let crate::signing::BridgeCommand::ExecuteProposalWithSignature { data, signature } = cmd;
    let key = crate::signing::bridge_command_key(&data, &signature);
    let tq = QueueId::Evm { chain_id };
    let item = crate::queue::QueueItem::new(key, head.payload, now, ttl_ms);
    match store.enqueue_item(&tq, item) {
        Result::Ok(_) => Result::Ok(true),
        Result::Err(e) => Result::Err(e),
    }
}

} // verus!
