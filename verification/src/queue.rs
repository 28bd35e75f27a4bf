//! The durable FIFO transaction queue: item shape, item state machine, and
//! the mathematical model of its operations.
//!
//! Each queue is a FIFO per (chain, kind) or per signature bridge. An item
//! carries a 64-byte key derived from its payload, so two enqueue attempts
//! of the same payload coalesce.

use vstd::prelude::*;

use crate::lookup::{lemma_find_props, spec_find};
use crate::proposals::{ResourceId, ResourceIdView};

verus! {

/// Which queue an item lives in.
#[derive(Clone, Debug)]
pub enum QueueId {
    /// The typed-transaction queue of one EVM chain.
    Evm { chain_id: u64 },
    /// The extrinsic queue of one Substrate chain.
    Substrate { chain_id: u64 },
    /// The command queue of one signature bridge.
    Bridge { bridge: ResourceId },
}

/// The mathematical shape of a queue id.
pub enum QueueIdView {
    Evm { chain_id: u64 },
    Substrate { chain_id: u64 },
    Bridge { bridge: ResourceIdView },
}

impl View for QueueId {
    type V = QueueIdView;

    open spec fn view(&self) -> QueueIdView {
        match self {
            QueueId::Evm { chain_id } => QueueIdView::Evm { chain_id: *chain_id },
            QueueId::Substrate { chain_id } => QueueIdView::Substrate { chain_id: *chain_id },
            QueueId::Bridge { bridge } => QueueIdView::Bridge { bridge: bridge@ },
        }
    }
}

/// True of two queue ids naming the same queue.
pub fn queue_id_eq(a: &QueueId, b: &QueueId) -> (r: bool)
    ensures
        r == (a@ == b@),
{
    match (a, b) {
        (QueueId::Evm { chain_id: ca }, QueueId::Evm { chain_id: cb }) => *ca == *cb,
        (QueueId::Substrate { chain_id: ca }, QueueId::Substrate { chain_id: cb }) => *ca == *cb,
        (QueueId::Bridge { bridge: ba }, QueueId::Bridge { bridge: bb }) => {
            crate::proposals::resource_id_eq(ba, bb)
        },
        _ => false,
    }
}

/// The label of the submission step an in-flight item has reached.
#[derive(Clone, Copy, Debug, PartialEq, Eq, Structural)]
pub enum ProcessingStep {
    /// The drainer picked the item off the head of its queue.
    Picked,
    /// The dry run of the signed transaction passed.
    DryRunPassed,
    /// The transaction was submitted on chain.
    Submitted,
    /// The chain reported the transaction as scheduled for a future slot.
    StatusFuture,
    /// The chain reported the transaction as ready.
    StatusReady,
    /// The chain reported the transaction as broadcast.
    StatusBroadcast,
    /// The chain reported the transaction as included in a block.
    StatusInBlock,
}

/// The state of a queue item. Progress is in hundredths: 0 is freshly
/// picked, 100 is finalized.
#[derive(Debug)]
pub enum QueueItemState {
    /// Waiting to be drained.
    Pending,
    /// Being submitted; the step label and the progress so far.
    Processing { step: ProcessingStep, progress: u8 },
    /// A dry run, submission or status stream failed; the reason the chain
    /// or client gave.
    Failed { reason: String },
    /// A terminal on-chain success was observed; the TTL will reap the item.
    Finalized,
}

/// The mathematical shape of a queue item state.
pub enum QueueStateView {
    Pending,
    Processing { step: ProcessingStep, progress: u8 },
    Failed { reason: Seq<char> },
    Finalized,
}

impl View for QueueItemState {
    type V = QueueStateView;

    open spec fn view(&self) -> QueueStateView {
        match self {
            QueueItemState::Pending => QueueStateView::Pending,
            QueueItemState::Processing { step, progress } => QueueStateView::Processing {
                step: *step,
                progress: *progress,
            },
            QueueItemState::Failed { reason } => QueueStateView::Failed { reason: reason@ },
            QueueItemState::Finalized => QueueStateView::Finalized,
        }
    }
}

/// One durable queue item: a payload under a 64-byte deduplication key,
/// with its state and its expiry budget.
#[derive(Debug)]
pub struct QueueItem {
    /// The 64-byte deterministic key derived from the payload.
    pub key: Vec<u8>,
    /// The serialized transaction or command to submit.
    pub payload: Vec<u8>,
    /// Where the item stands in the submission state machine.
    pub state: QueueItemState,
    /// When the item was created, in milliseconds.
    pub created_at: u64,
    /// How long the item may live before the drainer reaps it, in
    /// milliseconds.
    pub ttl_ms: u64,
}

/// The mathematical shape of a queue item.
pub struct QueueItemView {
    pub key: Seq<u8>,
    pub payload: Seq<u8>,
    pub state: QueueStateView,
    pub created_at: u64,
    pub ttl_ms: u64,
}

impl View for QueueItem {
    type V = QueueItemView;

    open spec fn view(&self) -> QueueItemView {
        QueueItemView {
            key: self.key@,
            payload: self.payload@,
            state: self.state@,
            created_at: self.created_at,
            ttl_ms: self.ttl_ms,
        }
    }
}

/// A queue item is well formed when its key has its fixed width.
pub open spec fn spec_item_wf(it: QueueItemView) -> bool {
    it.key.len() == 64
}

impl QueueItem {
    /// Builds a fresh pending item.
    pub fn new(key: Vec<u8>, payload: Vec<u8>, created_at: u64, ttl_ms: u64) -> (r: QueueItem)
        requires
            key@.len() == 64,
        ensures
            r@ == (QueueItemView {
                key: key@,
                payload: payload@,
                state: QueueStateView::Pending,
                created_at,
                ttl_ms,
            }),
            spec_item_wf(r@),
    {
        QueueItem { key, payload, state: QueueItemState::Pending, created_at, ttl_ms }
    }

    /// Where the item stands in the submission state machine.
    pub fn state(&self) -> (r: &QueueItemState)
        ensures
            r@ == self@.state,
    {
        &self.state
    }

    /// True once the item has outlived its TTL at time `now`.
    pub fn is_expired(&self, now: u64) -> (r: bool)
        ensures
            r == spec_item_expired(self@, now),
    {
        if now <= self.created_at {
            false
        } else {
            now - self.created_at > self.ttl_ms
        }
    }
}

/// True once an item has outlived its TTL at time `now`.
pub open spec fn spec_item_expired(it: QueueItemView, now: u64) -> bool {
    now > it.created_at + it.ttl_ms
}

/// The mathematical shape of a list of queue items.
pub open spec fn spec_items_view(v: Seq<QueueItem>) -> Seq<QueueItemView> {
    Seq::new(v.len(), |j: int| v[j]@)
}

/// True when some item of `q` carries key `k`.
pub open spec fn spec_queue_contains_key(q: Seq<QueueItemView>, k: Seq<u8>) -> bool {
    exists|i: int| 0 <= i < q.len() && #[trigger] q[i].key == k
}

/// The index of the item of `q` carrying key `k`, or -1.
pub open spec fn spec_queue_find_key(q: Seq<QueueItemView>, k: Seq<u8>) -> int {
    spec_find(q, |it: QueueItemView| it.key == k)
}

/// What enqueue does to one queue: nothing when the key is already present,
/// else an append at the tail.
pub open spec fn spec_enqueue(q: Seq<QueueItemView>, it: QueueItemView) -> Seq<QueueItemView> {
    if spec_queue_contains_key(q, it.key) {
        q
    } else {
        q.push(it)
    }
}

/// Distinct keys: no two items of one queue carry the same key.
pub open spec fn spec_queue_keys_distinct(q: Seq<QueueItemView>) -> bool {
    forall|i: int, j: int|
        0 <= i < q.len() && 0 <= j < q.len() && i != j ==> #[trigger] q[i].key != #[trigger] q[
            j
        ].key
}

/// Enqueuing the same key twice leaves the queue exactly as one enqueue
/// left it; in particular the first item, with its `created_at`, survives
/// and the second is dropped.
pub proof fn lemma_enqueue_idempotent(q: Seq<QueueItemView>, a: QueueItemView, b: QueueItemView)
    requires
        a.key == b.key,
    ensures
        spec_enqueue(spec_enqueue(q, a), b) == spec_enqueue(q, a),
{
    if !spec_queue_contains_key(q, a.key) {
        let q1 = q.push(a);
        assert(q1[q.len() as int].key == b.key);
        assert(spec_queue_contains_key(q1, b.key));
    }
}

/// A key already queued stays queued through any further enqueue.
pub proof fn lemma_enqueue_preserves_contains(
    q: Seq<QueueItemView>,
    it: QueueItemView,
    k: Seq<u8>,
)
    requires
        spec_queue_contains_key(q, k),
    ensures
        spec_queue_contains_key(spec_enqueue(q, it), k),
{
    let w = choose|w: int| 0 <= w < q.len() && #[trigger] q[w].key == k;
    assert(spec_enqueue(q, it)[w].key == k);
}

/// What one enqueue leaves in the queue: the new key is present, and every
/// key present before stays present.
pub proof fn lemma_enqueue_contains(q: Seq<QueueItemView>, it: QueueItemView)
    ensures
        spec_queue_contains_key(spec_enqueue(q, it), it.key),
        forall|k: Seq<u8>| #[trigger]
            spec_queue_contains_key(q, k) ==> spec_queue_contains_key(spec_enqueue(q, it), k),
{
    if !spec_queue_contains_key(q, it.key) {
        assert(spec_enqueue(q, it)[q.len() as int].key == it.key);
    }
    assert forall|k: Seq<u8>| #[trigger]
        spec_queue_contains_key(q, k) implies spec_queue_contains_key(
        spec_enqueue(q, it),
        k,
    ) by {
        lemma_enqueue_preserves_contains(q, it, k);
    }
}

/// Enqueue keeps keys distinct.
pub proof fn lemma_enqueue_preserves_distinct(q: Seq<QueueItemView>, it: QueueItemView)
    requires
        spec_queue_keys_distinct(q),
    ensures
        spec_queue_keys_distinct(spec_enqueue(q, it)),
{
    if !spec_queue_contains_key(q, it.key) {
        let q1 = q.push(it);
        assert forall|i: int, j: int|
            0 <= i < q1.len() && 0 <= j < q1.len() && i != j implies q1[i].key != q1[j].key by {
            if i < q.len() && j < q.len() {
                assert(q[i].key != q[j].key);
            } else if i < q.len() && j == q.len() {
                assert(!(q[i].key == it.key));
            } else if j < q.len() && i == q.len() {
                assert(!(q[j].key == it.key));
            }
        }
    }
}

/// In a queue whose keys are distinct there is at most one item under any
/// key: any two positions holding the key coincide.
pub proof fn lemma_at_most_one_item_per_key(q: Seq<QueueItemView>, k: Seq<u8>, i: int, j: int)
    requires
        spec_queue_keys_distinct(q),
        0 <= i < q.len(),
        0 <= j < q.len(),
        q[i].key == k,
        q[j].key == k,
    ensures
        i == j,
{
}

} // verus!

use crate::bytes::bytes_equal;
use crate::lookup::{lemma_find_at, lemma_find_none, lemma_find_push, lemma_find_update};
use crate::store::{
    spec_queue_ids_distinct, spec_queue_key_is, spec_queues_lookup, MemStore,
};
use crate::RelayerError;

verus! {

/// Finds the position of the queue of `q` in the queue association list.
#[verifier::loop_isolation(false)]
fn find_queue_idx(entries: &Vec<(QueueId, Vec<QueueItem>)>, q: &QueueId) -> (idx: Option<usize>)
    ensures
        match idx {
            Option::Some(i) => i < entries@.len() && spec_find(entries@, spec_queue_key_is(q@))
                == i,
            Option::None => spec_find(entries@, spec_queue_key_is(q@)) == -1,
        },
{
    let n = entries.len();
    let mut i: usize = 0;
    while i < n
        invariant
            i <= n,
            forall|j: int| 0 <= j < i ==> #[trigger] entries@[j].0@ != q@,
        decreases n - i,
    {
        if queue_id_eq(&entries[i].0, q) {
            proof {
                lemma_find_at(entries@, spec_queue_key_is(q@), i as int);
            }
            return Option::Some(i);
        }
        i += 1;
    }
    proof {
        lemma_find_none(entries@, spec_queue_key_is(q@));
    }
    Option::None
}

/// Finds the position of the item carrying `key` in one queue's item list.
#[verifier::loop_isolation(false)]
fn find_item_idx(items: &Vec<QueueItem>, key: &Vec<u8>) -> (idx: Option<usize>)
    ensures
        match idx {
            Option::Some(i) => i < items@.len() && spec_queue_find_key(
                spec_items_view(items@),
                key@,
            ) == i,
            Option::None => spec_queue_find_key(spec_items_view(items@), key@) == -1,
        },
        (idx is Some) == spec_queue_contains_key(spec_items_view(items@), key@),
{
    let ghost iv = spec_items_view(items@);
    let n = items.len();
    let mut i: usize = 0;
    while i < n
        invariant
            i <= n,
            forall|j: int| 0 <= j < i ==> #[trigger] spec_items_view(items@)[j].key != key@,
        decreases n - i,
    {
        if bytes_equal(&items[i].key, key) {
            proof {
                lemma_find_at(iv, |it: QueueItemView| it.key == key@, i as int);
                assert(spec_queue_contains_key(iv, key@));
            }
            return Option::Some(i);
        }
        i += 1;
    }
    proof {
        lemma_find_none(iv, |it: QueueItemView| it.key == key@);
        lemma_find_props(iv, |it: QueueItemView| it.key == key@);
        if spec_queue_contains_key(iv, key@) {
            let w = choose|w: int| 0 <= w < iv.len() && iv[w].key == key@;
            assert(false);
        }
    }
    Option::None
}

/// After replacing the item list of the queue at `qi` (whose id is `q`),
/// every other queue reads as before and `q` reads as the new list.
proof fn lemma_queues_update(
    olds: Seq<(QueueId, Vec<QueueItem>)>,
    news: Seq<(QueueId, Vec<QueueItem>)>,
    qi: int,
    q: QueueIdView,
)
    requires
        spec_queue_ids_distinct(olds),
        0 <= qi < olds.len(),
        olds[qi].0@ == q,
        spec_find(olds, spec_queue_key_is(q)) == qi,
        news == olds.update(qi, (olds[qi].0, news[qi].1)),
        news.len() == olds.len(),
    ensures
        spec_queue_ids_distinct(news),
        spec_queues_lookup(news, q) == spec_items_view(news[qi].1@),
        forall|q2: QueueIdView|
            q2 != q ==> #[trigger] spec_queues_lookup(news, q2) == spec_queues_lookup(olds, q2),
{
    lemma_find_update(olds, spec_queue_key_is(q), qi, (olds[qi].0, news[qi].1));
    assert forall|i: int, j: int|
        0 <= i < news.len() && 0 <= j < news.len() && i != j implies #[trigger] news[i].0@
        != #[trigger] news[j].0@ by {
        assert(news[i].0 == olds[i].0);
        assert(news[j].0 == olds[j].0);
    }
    assert forall|q2: QueueIdView|
        q2 != q implies #[trigger] spec_queues_lookup(news, q2) == spec_queues_lookup(
        olds,
        q2,
    ) by {
        lemma_find_props(olds, spec_queue_key_is(q2));
        lemma_find_update(olds, spec_queue_key_is(q2), qi, (olds[qi].0, news[qi].1));
        let f2 = spec_find(olds, spec_queue_key_is(q2));
        if f2 >= 0 {
            assert(olds[f2].0@ == q2);
            assert(f2 != qi);
            assert(news[f2] == olds[f2]);
        }
    }
}

/// After pushing a fresh queue entry for `q`, every other queue reads as
/// before and `q` reads as the new list.
proof fn lemma_queues_push(
    olds: Seq<(QueueId, Vec<QueueItem>)>,
    news: Seq<(QueueId, Vec<QueueItem>)>,
    q: QueueIdView,
)
    requires
        spec_queue_ids_distinct(olds),
        spec_find(olds, spec_queue_key_is(q)) == -1,
        news.len() == olds.len() + 1,
        news == olds.push(news[olds.len() as int]),
        news[olds.len() as int].0@ == q,
    ensures
        spec_queue_ids_distinct(news),
        spec_queues_lookup(news, q) == spec_items_view(news[olds.len() as int].1@),
        forall|q2: QueueIdView|
            q2 != q ==> #[trigger] spec_queues_lookup(news, q2) == spec_queues_lookup(olds, q2),
{
    let v = news[olds.len() as int];
    lemma_find_props(olds, spec_queue_key_is(q));
    lemma_find_push(olds, spec_queue_key_is(q), v);
    assert(spec_queue_key_is(q)(v));
    assert(spec_find(news, spec_queue_key_is(q)) == olds.len());
    assert forall|i: int, j: int|
        0 <= i < news.len() && 0 <= j < news.len() && i != j implies #[trigger] news[i].0@
        != #[trigger] news[j].0@ by {
        if i < olds.len() && j < olds.len() {
            assert(olds[i].0@ != olds[j].0@);
        } else if i < olds.len() && j == olds.len() {
            assert(!(spec_queue_key_is(q)(olds[i])));
        } else if j < olds.len() && i == olds.len() {
            assert(!(spec_queue_key_is(q)(olds[j])));
        }
    }
    assert forall|q2: QueueIdView|
        q2 != q implies #[trigger] spec_queues_lookup(news, q2) == spec_queues_lookup(
        olds,
        q2,
    ) by {
        lemma_find_props(olds, spec_queue_key_is(q2));
        lemma_find_push(olds, spec_queue_key_is(q2), v);
        let f2 = spec_find(olds, spec_queue_key_is(q2));
        if f2 >= 0 {
            assert(news[f2] == olds[f2]);
        }
    }
}

impl MemStore {
    /// Inserts `item` at the tail of queue `q`; a no-op when an item with
    /// the same key is already queued.
    pub fn enqueue_item(&mut self, q: &QueueId, item: QueueItem) -> (res: Result<(), RelayerError>)
        requires
            old(self).wf(),
            spec_item_wf(item@),
        ensures
            final(self).wf(),
            res is Ok,
            final(self).spec_queue(q@) == spec_enqueue(old(self).spec_queue(q@), item@),
            forall|q2: QueueIdView|
                q2 != q@ ==> #[trigger] final(self).spec_queue(q2) == old(self).spec_queue(q2),
            final(self).leaves == old(self).leaves,
            final(self).encrypted_outputs == old(self).encrypted_outputs,
            final(self).checkpoints == old(self).checkpoints,
            final(self).deposit_blocks == old(self).deposit_blocks,
            final(self).event_hashes == old(self).event_hashes,
            final(self).proposals == old(self).proposals,
    {
        let ghost oldqs = self.queues@;
        match find_queue_idx(&self.queues, q) {
            Option::Some(qi) => {
                if find_item_idx(&self.queues[qi].1, &item.key).is_some() {
                    proof {
                        lemma_find_props(
                            spec_items_view(self.queues@[qi as int].1@),
                            |it: QueueItemView| it.key == item@.key,
                        );
                        assert(spec_queue_contains_key(old(self).spec_queue(q@), item@.key));
                    }
                    return Result::Ok(());
                }
                let ghost old_items = spec_items_view(self.queues@[qi as int].1@);
                let mut pair = self.queues.remove(qi);
                pair.1.push(item);
                self.queues.insert(qi, pair);
                proof {
                    lemma_find_props(oldqs, spec_queue_key_is(q@));
                    assert(self.queues@ =~= oldqs.update(
                        qi as int,
                        (oldqs[qi as int].0, self.queues@[qi as int].1),
                    ));
                    lemma_queues_update(oldqs, self.queues@, qi as int, q@);
                    assert(spec_items_view(self.queues@[qi as int].1@) =~= old_items.push(item@));
                    assert(!spec_queue_contains_key(old_items, item@.key));
                    lemma_enqueue_preserves_distinct(old_items, item@);
                    lemma_store_queue_wf_update(*old(self), *self, qi as int);
                }
                Result::Ok(())
            },
            Option::None => {
                let qid = clone_queue_id(q);
                let mut items: Vec<QueueItem> = Vec::new();
                items.push(item);
                self.queues.push((qid, items));
                proof {
                    lemma_queues_push(oldqs, self.queues@, q@);
                    assert(old(self).spec_queue(q@) =~= Seq::<QueueItemView>::empty());
                    assert(spec_items_view(self.queues@[oldqs.len() as int].1@) =~= Seq::<
                        QueueItemView,
                    >::empty().push(item@));
                    assert(!spec_queue_contains_key(old(self).spec_queue(q@), item@.key));
                    lemma_store_queue_wf_push(*old(self), *self);
                }
                Result::Ok(())
            },
        }
    }

    /// The head of queue `q`, if any, without removing it.
    pub fn peek_item(&self, q: &QueueId) -> (r: Option<&QueueItem>)
        ensures
            match r {
                Option::Some(it) => self.spec_queue(q@).len() > 0 && it@ == self.spec_queue(
                    q@,
                )[0],
                Option::None => self.spec_queue(q@).len() == 0,
            },
    {
        match find_queue_idx(&self.queues, q) {
            Option::Some(qi) => {
                let items = &self.queues[qi].1;
                if items.len() > 0 {
                    Option::Some(&items[0])
                } else {
                    Option::None
                }
            },
            Option::None => Option::None,
        }
    }

    /// Removes and hands back the head of queue `q`, if any.
    pub fn dequeue_item(&mut self, q: &QueueId) -> (r: Option<QueueItem>)
        requires
            old(self).wf(),
        ensures
            final(self).wf(),
            match r {
                Option::Some(it) => old(self).spec_queue(q@).len() > 0
                    && it@ == old(self).spec_queue(q@)[0]
                    && final(self).spec_queue(q@) == old(self).spec_queue(q@).drop_first(),
                Option::None => old(self).spec_queue(q@).len() == 0
                    && *final(self) == *old(self),
            },
            forall|q2: QueueIdView|
                q2 != q@ ==> #[trigger] final(self).spec_queue(q2) == old(self).spec_queue(q2),
            final(self).leaves == old(self).leaves,
            final(self).encrypted_outputs == old(self).encrypted_outputs,
            final(self).checkpoints == old(self).checkpoints,
            final(self).deposit_blocks == old(self).deposit_blocks,
            final(self).event_hashes == old(self).event_hashes,
            final(self).proposals == old(self).proposals,
    {
        let ghost oldqs = self.queues@;
        match find_queue_idx(&self.queues, q) {
            Option::Some(qi) => {
                if self.queues[qi].1.len() == 0 {
                    return Option::None;
                }
                let ghost old_items = spec_items_view(self.queues@[qi as int].1@);
                let mut pair = self.queues.remove(qi);
                let it = pair.1.remove(0);
                self.queues.insert(qi, pair);
                proof {
                    lemma_find_props(oldqs, spec_queue_key_is(q@));
                    assert(self.queues@ =~= oldqs.update(
                        qi as int,
                        (oldqs[qi as int].0, self.queues@[qi as int].1),
                    ));
                    lemma_queues_update(oldqs, self.queues@, qi as int, q@);
                    assert(spec_items_view(self.queues@[qi as int].1@) =~= old_items.drop_first());
                    lemma_store_queue_wf_update(*old(self), *self, qi as int);
                }
                Option::Some(it)
            },
            Option::None => Option::None,
        }
    }

    /// True when queue `q` holds an item under `key`.
    pub fn has_item(&self, q: &QueueId, key: &Vec<u8>) -> (r: bool)
        ensures
            r == spec_queue_contains_key(self.spec_queue(q@), key@),
    {
        match find_queue_idx(&self.queues, q) {
            Option::Some(qi) => find_item_idx(&self.queues[qi].1, key).is_some(),
            Option::None => {
                proof {
                    if spec_queue_contains_key(self.spec_queue(q@), key@) {
                        let w = choose|w: int|
                            0 <= w < self.spec_queue(q@).len() && self.spec_queue(q@)[w].key
                                == key@;
                        assert(false);
                    }
                }
                false
            },
        }
    }

    /// The item of queue `q` under `key`, if any, without removing it.
    pub fn get_item(&self, q: &QueueId, key: &Vec<u8>) -> (r: Option<&QueueItem>)
        ensures
            match r {
                Option::Some(it) => spec_queue_contains_key(self.spec_queue(q@), key@) && it@
                    == self.spec_queue(q@)[spec_queue_find_key(self.spec_queue(q@), key@)],
                Option::None => !spec_queue_contains_key(self.spec_queue(q@), key@),
            },
    {
        match find_queue_idx(&self.queues, q) {
            Option::Some(qi) => {
                match find_item_idx(&self.queues[qi].1, key) {
                    Option::Some(i) => {
                        proof {
                            lemma_find_props(
                                spec_items_view(self.queues@[qi as int].1@),
                                |it: QueueItemView| it.key == key@,
                            );
                        }
                        Option::Some(&self.queues[qi].1[i])
                    },
                    Option::None => Option::None,
                }
            },
            Option::None => {
                proof {
                    if spec_queue_contains_key(self.spec_queue(q@), key@) {
                        let w = choose|w: int|
                            0 <= w < self.spec_queue(q@).len() && self.spec_queue(q@)[w].key
                                == key@;
                        assert(false);
                    }
                }
                Option::None
            },
        }
    }

    /// Removes and hands back the item of queue `q` under `key`, if any.
    pub fn remove_item(&mut self, q: &QueueId, key: &Vec<u8>) -> (r: Option<QueueItem>)
        requires
            old(self).wf(),
        ensures
            final(self).wf(),
            match r {
                Option::Some(it) => {
                    let i = spec_queue_find_key(old(self).spec_queue(q@), key@);
                    &&& spec_queue_contains_key(old(self).spec_queue(q@), key@)
                    &&& it@ == old(self).spec_queue(q@)[i]
                    &&& final(self).spec_queue(q@) == old(self).spec_queue(q@).remove(i)
                },
                Option::None => !spec_queue_contains_key(old(self).spec_queue(q@), key@)
                    && *final(self) == *old(self),
            },
            forall|q2: QueueIdView|
                q2 != q@ ==> #[trigger] final(self).spec_queue(q2) == old(self).spec_queue(q2),
            final(self).leaves == old(self).leaves,
            final(self).encrypted_outputs == old(self).encrypted_outputs,
            final(self).checkpoints == old(self).checkpoints,
            final(self).deposit_blocks == old(self).deposit_blocks,
            final(self).event_hashes == old(self).event_hashes,
            final(self).proposals == old(self).proposals,
    {
        let ghost oldqs = self.queues@;
        match find_queue_idx(&self.queues, q) {
            Option::Some(qi) => {
                match find_item_idx(&self.queues[qi].1, key) {
                    Option::Some(i) => {
                        let ghost old_items = spec_items_view(self.queues@[qi as int].1@);
                        proof {
                            lemma_find_props(old_items, |it: QueueItemView| it.key == key@);
                        }
                        let mut pair = self.queues.remove(qi);
                        let it = pair.1.remove(i);
                        self.queues.insert(qi, pair);
                        proof {
                            lemma_find_props(oldqs, spec_queue_key_is(q@));
                            assert(self.queues@ =~= oldqs.update(
                                qi as int,
                                (oldqs[qi as int].0, self.queues@[qi as int].1),
                            ));
                            lemma_queues_update(oldqs, self.queues@, qi as int, q@);
                            assert(spec_items_view(self.queues@[qi as int].1@) =~= old_items.remove(
                                i as int,
                            ));
                            lemma_store_queue_wf_update(*old(self), *self, qi as int);
                        }
                        Option::Some(it)
                    },
                    Option::None => Option::None,
                }
            },
            Option::None => {
                proof {
                    if spec_queue_contains_key(old(self).spec_queue(q@), key@) {
                        let w = choose|w: int|
                            0 <= w < old(self).spec_queue(q@).len() && old(self).spec_queue(
                                q@,
                            )[w].key == key@;
                        assert(false);
                    }
                }
                Option::None
            },
        }
    }

    /// Replaces the state of the item of queue `q` under `key`.
    pub fn update_item_state(&mut self, q: &QueueId, key: &Vec<u8>, state: QueueItemState) -> (res:
        Result<(), RelayerError>)
        requires
            old(self).wf(),
        ensures
            final(self).wf(),
            (res is Ok) == spec_queue_contains_key(old(self).spec_queue(q@), key@),
            res is Ok ==> {
                let i = spec_queue_find_key(old(self).spec_queue(q@), key@);
                final(self).spec_queue(q@) == old(self).spec_queue(q@).update(
                    i,
                    (QueueItemView {
                        state: state@,
                        ..old(self).spec_queue(q@)[i]
                    }),
                )
            },
            res is Err ==> *final(self) == *old(self),
            res matches Err(e) ==> e == RelayerError::ItemNotFound,
            forall|q2: QueueIdView|
                q2 != q@ ==> #[trigger] final(self).spec_queue(q2) == old(self).spec_queue(q2),
            final(self).leaves == old(self).leaves,
            final(self).encrypted_outputs == old(self).encrypted_outputs,
            final(self).checkpoints == old(self).checkpoints,
            final(self).deposit_blocks == old(self).deposit_blocks,
            final(self).event_hashes == old(self).event_hashes,
            final(self).proposals == old(self).proposals,
    {
        let ghost oldqs = self.queues@;
        match find_queue_idx(&self.queues, q) {
            Option::Some(qi) => {
                match find_item_idx(&self.queues[qi].1, key) {
                    Option::Some(i) => {
                        let ghost old_items = spec_items_view(self.queues@[qi as int].1@);
                        proof {
                            lemma_find_props(old_items, |it: QueueItemView| it.key == key@);
                        }
                        let mut pair = self.queues.remove(qi);
                        let slot = &mut pair.1[i];
                        slot.state = state;
                        self.queues.insert(qi, pair);
                        proof {
                            lemma_find_props(oldqs, spec_queue_key_is(q@));
                            assert(self.queues@ =~= oldqs.update(
                                qi as int,
                                (oldqs[qi as int].0, self.queues@[qi as int].1),
                            ));
                            lemma_queues_update(oldqs, self.queues@, qi as int, q@);
                            assert(spec_items_view(self.queues@[qi as int].1@) =~= old_items.update(
                                i as int,
                                (QueueItemView { state: state@, ..old_items[i as int] }),
                            ));
                            lemma_store_queue_wf_update(*old(self), *self, qi as int);
                        }
                        Result::Ok(())
                    },
                    Option::None => Result::Err(RelayerError::ItemNotFound),
                }
            },
            Option::None => {
                proof {
                    if spec_queue_contains_key(old(self).spec_queue(q@), key@) {
                        let w = choose|w: int|
                            0 <= w < old(self).spec_queue(q@).len() && old(self).spec_queue(
                                q@,
                            )[w].key == key@;
                        assert(false);
                    }
                }
                Result::Err(RelayerError::ItemNotFound)
            },
        }
    }

    /// Removes the item of queue `q` under `key` and re-enqueues it, with
    /// its state untouched, at the tail, so that the items behind it are
    /// served first.
    pub fn shift_item_to_end(&mut self, q: &QueueId, key: &Vec<u8>) -> (res: Result<
        (),
        RelayerError,
    >)
        requires
            old(self).wf(),
        ensures
            final(self).wf(),
            (res is Ok) == spec_queue_contains_key(old(self).spec_queue(q@), key@),
            res is Ok ==> {
                let i = spec_queue_find_key(old(self).spec_queue(q@), key@);
                final(self).spec_queue(q@) == old(self).spec_queue(q@).remove(i).push(
                    old(self).spec_queue(q@)[i],
                )
            },
            res is Err ==> *final(self) == *old(self),
            res matches Err(e) ==> e == RelayerError::ItemNotFound,
            forall|q2: QueueIdView|
                q2 != q@ ==> #[trigger] final(self).spec_queue(q2) == old(self).spec_queue(q2),
            final(self).leaves == old(self).leaves,
            final(self).encrypted_outputs == old(self).encrypted_outputs,
            final(self).checkpoints == old(self).checkpoints,
            final(self).deposit_blocks == old(self).deposit_blocks,
            final(self).event_hashes == old(self).event_hashes,
            final(self).proposals == old(self).proposals,
    {
        let ghost oldqs = self.queues@;
        match find_queue_idx(&self.queues, q) {
            Option::Some(qi) => {
                match find_item_idx(&self.queues[qi].1, key) {
                    Option::Some(i) => {
                        let ghost old_items = spec_items_view(self.queues@[qi as int].1@);
                        proof {
                            lemma_find_props(old_items, |it: QueueItemView| it.key == key@);
                        }
                        let mut pair = self.queues.remove(qi);
                        let it = pair.1.remove(i);
                        pair.1.push(it);
                        self.queues.insert(qi, pair);
                        proof {
                            lemma_find_props(oldqs, spec_queue_key_is(q@));
                            assert(self.queues@ =~= oldqs.update(
                                qi as int,
                                (oldqs[qi as int].0, self.queues@[qi as int].1),
                            ));
                            lemma_queues_update(oldqs, self.queues@, qi as int, q@);
                            assert(spec_items_view(self.queues@[qi as int].1@) =~= old_items.remove(
                                i as int,
                            ).push(old_items[i as int]));
                            lemma_shift_preserves_distinct(old_items, i as int);
                            lemma_store_queue_wf_update(*old(self), *self, qi as int);
                        }
                        Result::Ok(())
                    },
                    Option::None => Result::Err(RelayerError::ItemNotFound),
                }
            },
            Option::None => {
                proof {
                    if spec_queue_contains_key(old(self).spec_queue(q@), key@) {
                        let w = choose|w: int|
                            0 <= w < old(self).spec_queue(q@).len() && old(self).spec_queue(
                                q@,
                            )[w].key == key@;
                        assert(false);
                    }
                }
                Result::Err(RelayerError::ItemNotFound)
            },
        }
    }
}

/// Removing then re-pushing one item keeps keys distinct.
proof fn lemma_shift_preserves_distinct(items: Seq<QueueItemView>, i: int)
    requires
        spec_queue_keys_distinct(items),
        0 <= i < items.len(),
    ensures
        spec_queue_keys_distinct(items.remove(i).push(items[i])),
{
    let out = items.remove(i).push(items[i]);
    let n = items.len();
    assert forall|a: int, b: int|
        0 <= a < out.len() && 0 <= b < out.len() && a != b implies #[trigger] out[a].key
        != #[trigger] out[b].key by {
        let oa = if a == n - 1 {
            i
        } else if a < i {
            a
        } else {
            a + 1
        };
        let ob = if b == n - 1 {
            i
        } else if b < i {
            b
        } else {
            b + 1
        };
        assert(out[a] == items[oa]);
        assert(out[b] == items[ob]);
        assert(oa != ob);
    }
}

/// After an update of one queue entry whose new item list keeps well-formed
/// items and distinct keys, the store's queue invariants hold.
proof fn lemma_store_queue_wf_update(olds: MemStore, news: MemStore, qi: int)
    requires
        0 <= qi < news.queues@.len(),
        news.queues@.len() == olds.queues@.len(),
        forall|i: int| 0 <= i < news.queues@.len() && i != qi ==> news.queues@[i] == olds.queues@[i],
        forall|i: int, j: int|
            0 <= i < olds.queues@.len() && 0 <= j < olds.queues@[i].1@.len() ==> spec_item_wf(
                #[trigger] olds.queues@[i].1@[j]@,
            ),
        forall|i: int|
            0 <= i < olds.queues@.len() ==> spec_queue_keys_distinct(
                #[trigger] spec_items_view(olds.queues@[i].1@),
            ),
        forall|j: int|
            0 <= j < news.queues@[qi].1@.len() ==> spec_item_wf(#[trigger] news.queues@[qi].1@[j]@),
        spec_queue_keys_distinct(spec_items_view(news.queues@[qi].1@)),
    ensures
        forall|i: int, j: int|
            0 <= i < news.queues@.len() && 0 <= j < news.queues@[i].1@.len() ==> spec_item_wf(
                #[trigger] news.queues@[i].1@[j]@,
            ),
        forall|i: int|
            0 <= i < news.queues@.len() ==> spec_queue_keys_distinct(
                #[trigger] spec_items_view(news.queues@[i].1@),
            ),
{
    assert forall|i: int, j: int|
        0 <= i < news.queues@.len() && 0 <= j < news.queues@[i].1@.len() implies spec_item_wf(
        #[trigger] news.queues@[i].1@[j]@,
    ) by {
        if i != qi {
            assert(news.queues@[i] == olds.queues@[i]);
            assert(spec_item_wf(olds.queues@[i].1@[j]@));
        }
    }
    assert forall|i: int|
        0 <= i < news.queues@.len() implies spec_queue_keys_distinct(
        #[trigger] spec_items_view(news.queues@[i].1@),
    ) by {
        if i != qi {
            assert(news.queues@[i] == olds.queues@[i]);
            assert(spec_queue_keys_distinct(spec_items_view(olds.queues@[i].1@)));
        }
    }
}

/// After pushing one fresh queue entry whose item list keeps well-formed
/// items and distinct keys, the store's queue invariants hold.
proof fn lemma_store_queue_wf_push(olds: MemStore, news: MemStore)
    requires
        news.queues@.len() == olds.queues@.len() + 1,
        forall|i: int| 0 <= i < olds.queues@.len() ==> news.queues@[i] == olds.queues@[i],
        forall|i: int, j: int|
            0 <= i < olds.queues@.len() && 0 <= j < olds.queues@[i].1@.len() ==> spec_item_wf(
                #[trigger] olds.queues@[i].1@[j]@,
            ),
        forall|i: int|
            0 <= i < olds.queues@.len() ==> spec_queue_keys_distinct(
                #[trigger] spec_items_view(olds.queues@[i].1@),
            ),
        forall|j: int|
            0 <= j < news.queues@[olds.queues@.len() as int].1@.len() ==> spec_item_wf(
                #[trigger] news.queues@[olds.queues@.len() as int].1@[j]@,
            ),
        spec_queue_keys_distinct(spec_items_view(news.queues@[olds.queues@.len() as int].1@)),
    ensures
        forall|i: int, j: int|
            0 <= i < news.queues@.len() && 0 <= j < news.queues@[i].1@.len() ==> spec_item_wf(
                #[trigger] news.queues@[i].1@[j]@,
            ),
        forall|i: int|
            0 <= i < news.queues@.len() ==> spec_queue_keys_distinct(
                #[trigger] spec_items_view(news.queues@[i].1@),
            ),
{
    assert forall|i: int, j: int|
        0 <= i < news.queues@.len() && 0 <= j < news.queues@[i].1@.len() implies spec_item_wf(
        #[trigger] news.queues@[i].1@[j]@,
    ) by {
        if i < olds.queues@.len() {
            assert(news.queues@[i] == olds.queues@[i]);
            assert(spec_item_wf(olds.queues@[i].1@[j]@));
        }
    }
    assert forall|i: int|
        0 <= i < news.queues@.len() implies spec_queue_keys_distinct(
        #[trigger] spec_items_view(news.queues@[i].1@),
    ) by {
        if i < olds.queues@.len() {
            assert(news.queues@[i] == olds.queues@[i]);
            assert(spec_queue_keys_distinct(spec_items_view(olds.queues@[i].1@)));
        }
    }
}

/// A fresh queue id equal to `q`.
pub fn clone_queue_id(q: &QueueId) -> (r: QueueId)
    ensures
        r@ == q@,
{
    match q {
        QueueId::Evm { chain_id } => QueueId::Evm { chain_id: *chain_id },
        QueueId::Substrate { chain_id } => QueueId::Substrate { chain_id: *chain_id },
        QueueId::Bridge { bridge } => QueueId::Bridge {
            bridge: crate::proposals::clone_resource_id(bridge),
        },
    }
}


/// A key addressing a queue, and optionally one item in it, as the queue
/// store takes it.
pub trait QueueKey {
    /// The queue the key addresses.
    spec fn spec_queue_name(&self) -> QueueIdView;

    /// The item key inside the queue, when the key names one item.
    spec fn spec_item_key(&self) -> Option<Seq<u8>>;

    /// The queue the key addresses.
    fn queue_name(&self) -> (r: QueueId)
        ensures
            r@ == self.spec_queue_name(),
    ;

    /// The item key inside the queue, when the key names one item.
    fn item_key(&self) -> (r: Option<Vec<u8>>)
        ensures
            match r {
                Some(k) => Some(k@) == self.spec_item_key(),
                None => self.spec_item_key() is None,
            },
    ;
}

/// The queue key of the in-memory store: a queue id with an optional
/// 64-byte item key.
pub struct MemQueueKey {
    /// The queue addressed.
    pub queue: QueueId,
    /// The item addressed inside the queue, if one is.
    pub item: Option<Vec<u8>>,
}

impl QueueKey for MemQueueKey {
    open spec fn spec_queue_name(&self) -> QueueIdView {
        self.queue@
    }

    open spec fn spec_item_key(&self) -> Option<Seq<u8>> {
        match self.item {
            Some(k) => Some(k@),
            None => None,
        }
    }

    fn queue_name(&self) -> (r: QueueId) {
        clone_queue_id(&self.queue)
    }

    fn item_key(&self) -> (r: Option<Vec<u8>>) {
        match &self.item {
            Option::Some(k) => Option::Some(crate::bytes::copy_bytes(k)),
            Option::None => Option::None,
        }
    }
}

/// A store of FIFO queues of transaction items, one queue per queue id,
/// with at most one item per key.
pub trait QueueStore {
    /// The store's queue invariants.
    spec fn queue_store_wf(&self) -> bool;

    /// The items of queue `q`, head first.
    spec fn spec_queue_view(&self, q: QueueIdView) -> Seq<QueueItemView>;

    /// Inserts an item at the tail of its queue; a no-op when its key is
    /// already queued.
    fn enqueue_item(&mut self, queue: &QueueId, item: QueueItem) -> (res: Result<
        (),
        RelayerError,
    >)
        requires
            old(self).queue_store_wf(),
            spec_item_wf(item@),
        ensures
            final(self).queue_store_wf(),
            res is Ok,
            final(self).spec_queue_view(queue@) == spec_enqueue(
                old(self).spec_queue_view(queue@),
                item@,
            ),
    ;

    /// Removes and hands back the head of a queue, if any.
    fn dequeue_item(&mut self, queue: &QueueId) -> (r: Option<QueueItem>)
        requires
            old(self).queue_store_wf(),
        ensures
            final(self).queue_store_wf(),
            match r {
                Some(it) => old(self).spec_queue_view(queue@).len() > 0 && it@ == old(
                    self,
                ).spec_queue_view(queue@)[0] && final(self).spec_queue_view(queue@) == old(
                    self,
                ).spec_queue_view(queue@).drop_first(),
                None => old(self).spec_queue_view(queue@).len() == 0,
            },
    ;

    /// The head of a queue, if any, without removing it.
    fn peek_item<'a>(&'a self, queue: &QueueId) -> (r: Option<&'a QueueItem>)
        ensures
            match r {
                Some(it) => self.spec_queue_view(queue@).len() > 0 && it@ == self.spec_queue_view(
                    queue@,
                )[0],
                None => self.spec_queue_view(queue@).len() == 0,
            },
    ;

    /// True when a queue holds an item under `key`.
    fn has_item(&self, queue: &QueueId, key: &Vec<u8>) -> (r: bool)
        ensures
            r == spec_queue_contains_key(self.spec_queue_view(queue@), key@),
    ;

    /// Removes and hands back the item of a queue under `key`, if any.
    fn remove_item(&mut self, queue: &QueueId, key: &Vec<u8>) -> (r: Option<QueueItem>)
        requires
            old(self).queue_store_wf(),
        ensures
            final(self).queue_store_wf(),
            match r {
                Some(it) => spec_queue_contains_key(old(self).spec_queue_view(queue@), key@),
                None => !spec_queue_contains_key(old(self).spec_queue_view(queue@), key@),
            },
    ;
}

impl QueueStore for MemStore {
    open spec fn queue_store_wf(&self) -> bool {
        self.wf()
    }

    open spec fn spec_queue_view(&self, q: QueueIdView) -> Seq<QueueItemView> {
        self.spec_queue(q)
    }

    fn enqueue_item(&mut self, queue: &QueueId, item: QueueItem) -> (res: Result<
        (),
        RelayerError,
    >) {
        MemStore::enqueue_item(self, queue, item)
    }

    fn dequeue_item(&mut self, queue: &QueueId) -> (r: Option<QueueItem>) {
        MemStore::dequeue_item(self, queue)
    }

    fn peek_item<'a>(&'a self, queue: &QueueId) -> (r: Option<&'a QueueItem>) {
        MemStore::peek_item(self, queue)
    }

    fn has_item(&self, queue: &QueueId, key: &Vec<u8>) -> (r: bool) {
        MemStore::has_item(self, queue, key)
    }

    fn remove_item(&mut self, queue: &QueueId, key: &Vec<u8>) -> (r: Option<QueueItem>) {
        MemStore::remove_item(self, queue, key)
    }
}

} // verus!
