//! The shared store: leaf cache, encrypted-output cache, checkpoint map,
//! event-hash set, per-queue item lists and pending proposals, all keyed by
//! plain byte values.
//!
//! Every component reads and writes through this one structure; its
//! well-formedness predicate carries the invariants the rest of the library
//! relies on: association keys are distinct, cached indices are contiguous
//! from zero, and every queue holds at most one item per key.

use vstd::prelude::*;

use crate::bytes::{bytes_equal, copy_bytes};
use crate::lookup::{
    lemma_find_at, lemma_find_none, lemma_find_props, lemma_find_push, lemma_find_update,
    spec_find,
};
use crate::proposals::{clone_resource_id, resource_id_eq, ResourceId, ResourceIdView};
use crate::queue::{
    queue_id_eq, spec_item_wf, spec_items_view, spec_queue_keys_distinct, QueueId, QueueIdView,
    QueueItem, QueueItemView,
};
use crate::RelayerError;

verus! {

/// An ordered list of `(index, bytes)` records under one resource id.
pub type CacheEntry = Vec<(u32, Vec<u8>)>;

/// The mathematical shape of a cache entry.
pub open spec fn spec_pairs_view(s: Seq<(u32, Vec<u8>)>) -> Seq<(u32, Seq<u8>)> {
    Seq::new(s.len(), |i: int| (s[i].0, s[i].1@))
}

/// Indices run 0,1,…,n-1 in order. The length bound restates that a 32-bit
/// index can reach every position.
pub open spec fn spec_pairs_contiguous(p: Seq<(u32, Seq<u8>)>) -> bool {
    &&& p.len() <= 0x1_0000_0000
    &&& forall|k: int| 0 <= k < p.len() ==> #[trigger] p[k].0 == k
}

/// Every record holds a 32-byte value.
pub open spec fn spec_pairs_len32(p: Seq<(u32, Seq<u8>)>) -> bool {
    forall|k: int| 0 <= k < p.len() ==> #[trigger] p[k].1.len() == 32
}

/// The predicate picking the cache entry of resource id `r`.
pub open spec fn spec_cache_key_is(r: ResourceIdView) -> spec_fn((ResourceId, CacheEntry)) -> bool {
    |e: (ResourceId, CacheEntry)| e.0@ == r
}

/// The predicate picking the block entry of resource id `r`.
pub open spec fn spec_block_key_is(r: ResourceIdView) -> spec_fn((ResourceId, u64)) -> bool {
    |e: (ResourceId, u64)| e.0@ == r
}

/// The predicate picking a stored byte run equal to `d`.
pub open spec fn spec_bytes_is(d: Seq<u8>) -> spec_fn(Vec<u8>) -> bool {
    |e: Vec<u8>| e@ == d
}

/// The predicate picking the queue of id `q`.
pub open spec fn spec_queue_key_is(q: QueueIdView) -> spec_fn((QueueId, Vec<QueueItem>)) -> bool {
    |e: (QueueId, Vec<QueueItem>)| e.0@ == q
}

/// The predicate picking the stored proposal under data hash `h`.
pub open spec fn spec_hash_key_is(h: Seq<u8>) -> spec_fn((Vec<u8>, Vec<u8>)) -> bool {
    |e: (Vec<u8>, Vec<u8>)| e.0@ == h
}

/// The records of the cache association list `s` under resource id `r`;
/// empty when `r` has no entry.
pub open spec fn spec_cache_lookup(s: Seq<(ResourceId, CacheEntry)>, r: ResourceIdView) -> Seq<
    (u32, Seq<u8>),
> {
    let i = spec_find(s, spec_cache_key_is(r));
    if i < 0 {
        Seq::empty()
    } else {
        spec_pairs_view(s[i].1@)
    }
}

/// The block number stored under `r`, if any.
pub open spec fn spec_block_lookup(s: Seq<(ResourceId, u64)>, r: ResourceIdView) -> Option<u64> {
    let i = spec_find(s, spec_block_key_is(r));
    if i < 0 {
        None
    } else {
        Some(s[i].1)
    }
}

/// The items of a queue association list under queue id `q`, in order.
pub open spec fn spec_queues_lookup(s: Seq<(QueueId, Vec<QueueItem>)>, q: QueueIdView) -> Seq<
    QueueItemView,
> {
    let i = spec_find(s, spec_queue_key_is(q));
    if i < 0 {
        Seq::empty()
    } else {
        spec_items_view(s[i].1@)
    }
}

/// The in-memory store shared by watchers, handlers and drainers.
pub struct MemStore {
    /// Leaf commitments per resource id, contiguous from index 0.
    pub leaves: Vec<(ResourceId, CacheEntry)>,
    /// Encrypted outputs per resource id, contiguous from index 0.
    pub encrypted_outputs: Vec<(ResourceId, CacheEntry)>,
    /// Last fully processed block per resource id.
    pub checkpoints: Vec<(ResourceId, u64)>,
    /// Block of the last cached deposit per resource id.
    pub deposit_blocks: Vec<(ResourceId, u64)>,
    /// Serialized events already handled to completion.
    pub event_hashes: Vec<Vec<u8>>,
    /// One FIFO item list per queue id.
    pub queues: Vec<(QueueId, Vec<QueueItem>)>,
    /// Pending proposals by data hash.
    pub proposals: Vec<(Vec<u8>, Vec<u8>)>,
}

/// Keys of a cache association list are distinct.
pub open spec fn spec_cache_keys_distinct(s: Seq<(ResourceId, CacheEntry)>) -> bool {
    forall|i: int, j: int|
        0 <= i < s.len() && 0 <= j < s.len() && i != j ==> #[trigger] s[i].0@ != #[trigger] s[
            j
        ].0@
}

/// Keys of a block association list are distinct.
pub open spec fn spec_block_keys_distinct(s: Seq<(ResourceId, u64)>) -> bool {
    forall|i: int, j: int|
        0 <= i < s.len() && 0 <= j < s.len() && i != j ==> #[trigger] s[i].0@ != #[trigger] s[
            j
        ].0@
}

/// Keys of the queue association list are distinct.
pub open spec fn spec_queue_ids_distinct(s: Seq<(QueueId, Vec<QueueItem>)>) -> bool {
    forall|i: int, j: int|
        0 <= i < s.len() && 0 <= j < s.len() && i != j ==> #[trigger] s[i].0@ != #[trigger] s[
            j
        ].0@
}

impl MemStore {
    /// The leaf records cached under `r`, in order.
    pub open spec fn spec_leaves(self, r: ResourceIdView) -> Seq<(u32, Seq<u8>)> {
        spec_cache_lookup(self.leaves@, r)
    }

    /// The encrypted-output records cached under `r`, in order.
    pub open spec fn spec_outputs(self, r: ResourceIdView) -> Seq<(u32, Seq<u8>)> {
        spec_cache_lookup(self.encrypted_outputs@, r)
    }

    /// The checkpoint of `r`, if one was ever set.
    pub open spec fn spec_checkpoint(self, r: ResourceIdView) -> Option<u64> {
        spec_block_lookup(self.checkpoints@, r)
    }

    /// The last deposit block of `r`, if one was ever set.
    pub open spec fn spec_deposit_block(self, r: ResourceIdView) -> Option<u64> {
        spec_block_lookup(self.deposit_blocks@, r)
    }

    /// True once the serialized event `d` was handled to completion.
    pub open spec fn spec_has_event(self, d: Seq<u8>) -> bool {
        spec_find(self.event_hashes@, spec_bytes_is(d)) >= 0
    }

    /// The items of queue `q`, head first.
    pub open spec fn spec_queue(self, q: QueueIdView) -> Seq<QueueItemView> {
        spec_queues_lookup(self.queues@, q)
    }

    /// The stored proposal bytes under data hash `h`, if any.
    pub open spec fn spec_proposal(self, h: Seq<u8>) -> Option<Seq<u8>> {
        let i = spec_find(self.proposals@, spec_hash_key_is(h));
        if i < 0 {
            None
        } else {
            Some(self.proposals@[i].1@)
        }
    }

    /// The store's invariants: distinct keys everywhere, contiguous cache
    /// indices, 32-byte leaf commitments, well-formed queue items and at
    /// most one item per key in every queue.
    pub open spec fn wf(self) -> bool {
        &&& spec_cache_keys_distinct(self.leaves@)
        &&& spec_cache_keys_distinct(self.encrypted_outputs@)
        &&& spec_block_keys_distinct(self.checkpoints@)
        &&& spec_block_keys_distinct(self.deposit_blocks@)
        &&& spec_queue_ids_distinct(self.queues@)
        &&& forall|i: int|
            0 <= i < self.leaves@.len() ==> spec_pairs_contiguous(
                #[trigger] spec_pairs_view(self.leaves@[i].1@),
            ) && spec_pairs_len32(spec_pairs_view(self.leaves@[i].1@))
        &&& forall|i: int|
            0 <= i < self.encrypted_outputs@.len() ==> spec_pairs_contiguous(
                #[trigger] spec_pairs_view(self.encrypted_outputs@[i].1@),
            )
        &&& forall|i: int, j: int|
            0 <= i < self.queues@.len() && 0 <= j < self.queues@[i].1@.len()
                ==> spec_item_wf(#[trigger] self.queues@[i].1@[j]@)
        &&& forall|i: int|
            0 <= i < self.queues@.len() ==> spec_queue_keys_distinct(
                #[trigger] spec_items_view(self.queues@[i].1@),
            )
    }

    /// A fresh store with nothing in it.
    pub fn new() -> (r: MemStore)
        ensures
            r.wf(),
            forall|rid: ResourceIdView| #[trigger] r.spec_leaves(rid) == Seq::<(u32, Seq<u8>)>::empty(),
            forall|rid: ResourceIdView| #[trigger] r.spec_outputs(rid) == Seq::<(u32, Seq<u8>)>::empty(),
            forall|rid: ResourceIdView| #[trigger] r.spec_checkpoint(rid) is None,
            forall|rid: ResourceIdView| #[trigger] r.spec_deposit_block(rid) is None,
            forall|d: Seq<u8>| !(#[trigger] r.spec_has_event(d)),
            forall|q: QueueIdView| #[trigger] r.spec_queue(q) == Seq::<QueueItemView>::empty(),
    {
        MemStore {
            leaves: Vec::new(),
            encrypted_outputs: Vec::new(),
            checkpoints: Vec::new(),
            deposit_blocks: Vec::new(),
            event_hashes: Vec::new(),
            queues: Vec::new(),
            proposals: Vec::new(),
        }
    }
}

/// Finds the position of the cache entry of `r` in `entries`.
#[verifier::loop_isolation(false)]
fn find_cache_idx(entries: &Vec<(ResourceId, CacheEntry)>, r: &ResourceId) -> (idx: Option<usize>)
    ensures
        match idx {
            Option::Some(i) => i < entries@.len() && spec_find(entries@, spec_cache_key_is(r@))
                == i,
            Option::None => spec_find(entries@, spec_cache_key_is(r@)) == -1,
        },
{
    let n = entries.len();
    let mut i: usize = 0;
    while i < n
        invariant
            i <= n,
            forall|j: int| 0 <= j < i ==> #[trigger] entries@[j].0@ != r@,
        decreases n - i,
    {
        if resource_id_eq(&entries[i].0, r) {
            proof {
                lemma_find_at(entries@, spec_cache_key_is(r@), i as int);
            }
            return Option::Some(i);
        }
        i += 1;
    }
    proof {
        lemma_find_none(entries@, spec_cache_key_is(r@));
    }
    Option::None
}

/// Finds the position of the block entry of `r` in `entries`.
#[verifier::loop_isolation(false)]
fn find_block_idx(entries: &Vec<(ResourceId, u64)>, r: &ResourceId) -> (idx: Option<usize>)
    ensures
        match idx {
            Option::Some(i) => i < entries@.len() && spec_find(entries@, spec_block_key_is(r@))
                == i,
            Option::None => spec_find(entries@, spec_block_key_is(r@)) == -1,
        },
{
    let n = entries.len();
    let mut i: usize = 0;
    while i < n
        invariant
            i <= n,
            forall|j: int| 0 <= j < i ==> #[trigger] entries@[j].0@ != r@,
        decreases n - i,
    {
        if resource_id_eq(&entries[i].0, r) {
            proof {
                lemma_find_at(entries@, spec_block_key_is(r@), i as int);
            }
            return Option::Some(i);
        }
        i += 1;
    }
    proof {
        lemma_find_none(entries@, spec_block_key_is(r@));
    }
    Option::None
}

impl MemStore {
    /// The cached leaf commitments under `r`, in index order, as fresh
    /// byte vectors.
    #[verifier::loop_isolation(false)]
    pub fn get_leaves(&self, r: &ResourceId) -> (out: Vec<Vec<u8>>)
        ensures
            out@.len() == self.spec_leaves(r@).len(),
            forall|i: int|
                0 <= i < out@.len() ==> #[trigger] out@[i]@ == self.spec_leaves(r@)[i].1,
    {
        let idx = find_cache_idx(&self.leaves, r);
        let mut out: Vec<Vec<u8>> = Vec::new();
        match idx {
            Option::Some(qi) => {
                let entry = &self.leaves[qi].1;
                let n = entry.len();
                let mut k: usize = 0;
                while k < n
                    invariant
                        k <= n,
                        out@.len() == k,
                        forall|i: int|
                            0 <= i < k ==> #[trigger] out@[i]@ == self.spec_leaves(r@)[i].1,
                    decreases n - k,
                {
                    out.push(copy_bytes(&entry[k].1));
                    k += 1;
                }
                out
            },
            Option::None => out,
        }
    }

    /// Appends a batch of leaf records under `r`. The batch must continue
    /// the contiguous index sequence exactly; otherwise nothing changes and
    /// the batch is rejected.
    #[verifier::loop_isolation(false)]
    pub fn insert_leaves(&mut self, r: &ResourceId, batch: Vec<(u32, Vec<u8>)>) -> (res: Result<
        (),
        RelayerError,
    >)
        requires
            old(self).wf(),
            forall|k: int| 0 <= k < batch@.len() ==> #[trigger] batch@[k].1@.len() == 32,
        ensures
            final(self).wf(),
            (res is Ok) == (forall|k: int|
                0 <= k < batch@.len() ==> #[trigger] batch@[k].0 == old(self).spec_leaves(
                    r@,
                ).len() + k),
            res is Ok ==> final(self).spec_leaves(r@) == old(self).spec_leaves(r@)
                + spec_pairs_view(batch@),
            res is Ok ==> forall|r2: ResourceIdView|
                r2 != r@ ==> #[trigger] final(self).spec_leaves(r2) == old(self).spec_leaves(r2),
            res is Err ==> *final(self) == *old(self),
            res matches Err(e) ==> e == RelayerError::NonContiguousLeaves,
            final(self).encrypted_outputs == old(self).encrypted_outputs,
            final(self).checkpoints == old(self).checkpoints,
            final(self).deposit_blocks == old(self).deposit_blocks,
            final(self).event_hashes == old(self).event_hashes,
            final(self).queues == old(self).queues,
            final(self).proposals == old(self).proposals,
    {
        let idx = find_cache_idx(&self.leaves, r);
        let cur_len: usize = match idx {
            Option::Some(qi) => self.leaves[qi].1.len(),
            Option::None => 0,
        };
        proof {
            if spec_find(self.leaves@, spec_cache_key_is(r@)) >= 0 {
                assert(spec_pairs_contiguous(
                    spec_pairs_view(
                        self.leaves@[spec_find(self.leaves@, spec_cache_key_is(r@))].1@,
                    ),
                ));
            }
            assert(cur_len == self.spec_leaves(r@).len());
            assert(cur_len <= 0x1_0000_0000);
        }
        let m = batch.len();
        let mut k: usize = 0;
        while k < m
            invariant
                k <= m,
                cur_len as int + k as int <= 0x1_0000_0001,
                forall|j: int|
                    0 <= j < k ==> #[trigger] batch@[j].0 == old(self).spec_leaves(r@).len() + j,
            decreases m - k,
        {
            let expected: u64 = cur_len as u64 + k as u64;
            if batch[k].0 as u64 != expected {
                return Result::Err(RelayerError::NonContiguousLeaves);
            }
            k += 1;
        }
        let ghost old_entries = self.leaves@;
        match idx {
            Option::Some(qi) => {
                let mut pair = self.leaves.remove(qi);
                let ghost old_pairs = pair.1@;
                append_pairs(&mut pair.1, batch);
                self.leaves.insert(qi, pair);
                proof {
                    lemma_find_props(old_entries, spec_cache_key_is(r@));
                    assert(self.leaves@ =~= old_entries.update(
                        qi as int,
                        (old_entries[qi as int].0, self.leaves@[qi as int].1),
                    ));
                    lemma_insert_cache_update(
                        old_entries,
                        self.leaves@,
                        qi as int,
                        r@,
                        old_pairs,
                        batch@,
                        true,
                    );
                }
                Result::Ok(())
            },
            Option::None => {
                let rid = clone_resource_id(r);
                let mut entry: CacheEntry = Vec::new();
                append_pairs(&mut entry, batch);
                self.leaves.push((rid, entry));
                proof {
                    lemma_insert_cache_push(old_entries, self.leaves@, r@, batch@, true);
                }
                Result::Ok(())
            },
        }
    }
}

/// The view of a concatenation is the concatenation of the views.
proof fn lemma_pairs_view_concat(a: Seq<(u32, Vec<u8>)>, b: Seq<(u32, Vec<u8>)>)
    ensures
        spec_pairs_view(a + b) == spec_pairs_view(a) + spec_pairs_view(b),
{
    assert(spec_pairs_view(a + b) =~= spec_pairs_view(a) + spec_pairs_view(b));
}

/// Moves every record of `batch` to the tail of `entry`.
#[verifier::loop_isolation(false)]
fn append_pairs(entry: &mut CacheEntry, batch: Vec<(u32, Vec<u8>)>)
    ensures
        final(entry)@.len() == old(entry)@.len() + batch@.len(),
        final(entry)@ == old(entry)@ + batch@,
        spec_pairs_view(final(entry)@) == spec_pairs_view(old(entry)@) + spec_pairs_view(batch@),
{
    let m = batch.len();
    let mut rest = batch;
    let mut consumed: usize = 0;
    while rest.len() > 0
        invariant
            consumed + rest@.len() == m,
            entry@ == old(entry)@ + batch@.subrange(0, consumed as int),
            rest@ == batch@.subrange(consumed as int, m as int),
        decreases rest@.len(),
    {
        let p = rest.remove(0);
        proof {
            assert(p == batch@[consumed as int]);
        }
        entry.push(p);
        consumed += 1;
        proof {
            assert(entry@ =~= old(entry)@ + batch@.subrange(0, consumed as int));
            assert(rest@ =~= batch@.subrange(consumed as int, m as int));
        }
    }
    proof {
        assert(batch@.subrange(0, m as int) =~= batch@);
        assert(entry@ =~= old(entry)@ + batch@);
        lemma_pairs_view_concat(old(entry)@, batch@);
    }
}

/// After updating the entry at `qi` (whose key is `r`) by appending a
/// contiguous batch, the cache invariants and the lookup statements of the
/// insert operations hold. `len32` tracks whether the cache constrains its
/// records to 32 bytes.
proof fn lemma_insert_cache_update(
    olds: Seq<(ResourceId, CacheEntry)>,
    news: Seq<(ResourceId, CacheEntry)>,
    qi: int,
    r: ResourceIdView,
    old_pairs: Seq<(u32, Vec<u8>)>,
    batch: Seq<(u32, Vec<u8>)>,
    len32: bool,
)
    requires
        spec_cache_keys_distinct(olds),
        forall|i: int|
            0 <= i < olds.len() ==> spec_pairs_contiguous(
                #[trigger] spec_pairs_view(olds[i].1@),
            ) && (len32 ==> spec_pairs_len32(spec_pairs_view(olds[i].1@))),
        0 <= qi < olds.len(),
        olds[qi].0@ == r,
        spec_find(olds, spec_cache_key_is(r)) == qi,
        olds[qi].1@ == old_pairs,
        news == olds.update(qi, (olds[qi].0, news[qi].1)),
        news.len() == olds.len(),
        spec_pairs_view(news[qi].1@) == spec_pairs_view(old_pairs) + spec_pairs_view(batch),
        forall|k: int| 0 <= k < batch.len() ==> #[trigger] batch[k].0 == old_pairs.len() + k,
        len32 ==> forall|k: int| 0 <= k < batch.len() ==> #[trigger] batch[k].1@.len() == 32,
    ensures
        spec_cache_keys_distinct(news),
        forall|i: int|
            0 <= i < news.len() ==> spec_pairs_contiguous(
                #[trigger] spec_pairs_view(news[i].1@),
            ) && (len32 ==> spec_pairs_len32(spec_pairs_view(news[i].1@))),
        spec_cache_lookup(news, r) == spec_cache_lookup(olds, r) + spec_pairs_view(batch),
        forall|r2: ResourceIdView|
            r2 != r ==> #[trigger] spec_cache_lookup(news, r2) == spec_cache_lookup(olds, r2),
{
    lemma_find_update(olds, spec_cache_key_is(r), qi, (olds[qi].0, news[qi].1));
    assert forall|i: int|
        0 <= i < news.len() implies spec_pairs_contiguous(
        #[trigger] spec_pairs_view(news[i].1@),
    ) && (len32 ==> spec_pairs_len32(spec_pairs_view(news[i].1@))) by {
        if i != qi {
            assert(news[i] == olds[i]);
            assert(spec_pairs_contiguous(spec_pairs_view(olds[i].1@)));
        } else {
            let newp = spec_pairs_view(news[qi].1@);
            let oldp = spec_pairs_view(old_pairs);
            let batchp = spec_pairs_view(batch);
            assert(spec_pairs_contiguous(oldp));
            assert forall|k: int| 0 <= k < newp.len() implies #[trigger] newp[k].0 == k by {
                if k < oldp.len() {
                    assert(newp[k] == oldp[k]);
                } else {
                    assert(newp[k] == batchp[k - oldp.len()]);
                    assert(batch[k - oldp.len()].0 == old_pairs.len() + (k - oldp.len()));
                }
            }
            if len32 {
                assert(spec_pairs_len32(oldp));
                assert forall|k: int| 0 <= k < newp.len() implies #[trigger] newp[k].1.len()
                    == 32 by {
                    if k < oldp.len() {
                        assert(newp[k] == oldp[k]);
                    } else {
                        assert(newp[k] == batchp[k - oldp.len()]);
                        assert(batch[k - oldp.len()].1@.len() == 32);
                    }
                }
            }
            assert(newp.len() == oldp.len() + batchp.len());
            if newp.len() > 0x1_0000_0000 {
                assert(newp[0x1_0000_0000].0 == 0x1_0000_0000int);
                assert(false);
            }
        }
    }
    assert forall|i: int, j: int|
        0 <= i < news.len() && 0 <= j < news.len() && i != j implies #[trigger] news[i].0@
        != #[trigger] news[j].0@ by {
        assert(news[i].0 == olds[i].0);
        assert(news[j].0 == olds[j].0);
    }
    assert forall|r2: ResourceIdView|
        r2 != r implies #[trigger] spec_cache_lookup(news, r2) == spec_cache_lookup(olds, r2) by {
        lemma_find_props(olds, spec_cache_key_is(r2));
        let f2 = spec_find(olds, spec_cache_key_is(r2));
        lemma_find_update(olds, spec_cache_key_is(r2), qi, (olds[qi].0, news[qi].1));
        if f2 >= 0 {
            assert(olds[f2].0@ == r2);
            assert(f2 != qi);
            assert(news[f2] == olds[f2]);
        }
    }
}

/// After pushing a fresh entry for `r` holding a batch starting at index 0,
/// the cache invariants and the lookup statements of the insert operations
/// hold. `len32` tracks whether the cache constrains its records to 32
/// bytes.
proof fn lemma_insert_cache_push(
    olds: Seq<(ResourceId, CacheEntry)>,
    news: Seq<(ResourceId, CacheEntry)>,
    r: ResourceIdView,
    batch: Seq<(u32, Vec<u8>)>,
    len32: bool,
)
    requires
        spec_cache_keys_distinct(olds),
        forall|i: int|
            0 <= i < olds.len() ==> spec_pairs_contiguous(
                #[trigger] spec_pairs_view(olds[i].1@),
            ) && (len32 ==> spec_pairs_len32(spec_pairs_view(olds[i].1@))),
        spec_find(olds, spec_cache_key_is(r)) == -1,
        news.len() == olds.len() + 1,
        news == olds.push(news[olds.len() as int]),
        news[olds.len() as int].0@ == r,
        spec_pairs_view(news[olds.len() as int].1@) == spec_pairs_view(batch),
        forall|k: int| 0 <= k < batch.len() ==> #[trigger] batch[k].0 == k,
        len32 ==> forall|k: int| 0 <= k < batch.len() ==> #[trigger] batch[k].1@.len() == 32,
    ensures
        spec_cache_keys_distinct(news),
        forall|i: int|
            0 <= i < news.len() ==> spec_pairs_contiguous(
                #[trigger] spec_pairs_view(news[i].1@),
            ) && (len32 ==> spec_pairs_len32(spec_pairs_view(news[i].1@))),
        spec_cache_lookup(news, r) == spec_cache_lookup(olds, r) + spec_pairs_view(batch),
        forall|r2: ResourceIdView|
            r2 != r ==> #[trigger] spec_cache_lookup(news, r2) == spec_cache_lookup(olds, r2),
{
    let v = news[olds.len() as int];
    lemma_find_props(olds, spec_cache_key_is(r));
    lemma_find_push(olds, spec_cache_key_is(r), v);
    assert(spec_cache_key_is(r)(v));
    assert(spec_find(news, spec_cache_key_is(r)) == olds.len());
    assert(spec_cache_lookup(olds, r) =~= Seq::<(u32, Seq<u8>)>::empty());
    assert(spec_cache_lookup(news, r) =~= spec_cache_lookup(olds, r) + spec_pairs_view(batch));
    assert forall|i: int, j: int|
        0 <= i < news.len() && 0 <= j < news.len() && i != j implies #[trigger] news[i].0@
        != #[trigger] news[j].0@ by {
        if i < olds.len() && j < olds.len() {
            assert(olds[i].0@ != olds[j].0@);
        } else if i < olds.len() && j == olds.len() {
            assert(!(spec_cache_key_is(r)(olds[i])));
        } else if j < olds.len() && i == olds.len() {
            assert(!(spec_cache_key_is(r)(olds[j])));
        }
    }
    assert forall|i: int|
        0 <= i < news.len() implies spec_pairs_contiguous(
        #[trigger] spec_pairs_view(news[i].1@),
    ) && (len32 ==> spec_pairs_len32(spec_pairs_view(news[i].1@))) by {
        if i < olds.len() {
            assert(news[i] == olds[i]);
            assert(spec_pairs_contiguous(spec_pairs_view(olds[i].1@)));
        } else {
            let newp = spec_pairs_view(news[i].1@);
            if newp.len() > 0x1_0000_0000 {
                assert(newp[0x1_0000_0000].0 == 0x1_0000_0000int);
                assert(false);
            }
            if len32 {
                assert forall|k: int| 0 <= k < newp.len() implies #[trigger] newp[k].1.len()
                    == 32 by {
                    assert(newp[k] == spec_pairs_view(batch)[k]);
                    assert(batch[k].1@.len() == 32);
                }
            }
        }
    }
    assert forall|r2: ResourceIdView|
        r2 != r implies #[trigger] spec_cache_lookup(news, r2) == spec_cache_lookup(olds, r2) by {
        lemma_find_props(olds, spec_cache_key_is(r2));
        lemma_find_push(olds, spec_cache_key_is(r2), v);
        let f2 = spec_find(olds, spec_cache_key_is(r2));
        if f2 >= 0 {
            assert(news[f2] == olds[f2]);
        }
    }
}

impl MemStore {
    /// The cached encrypted outputs under `r`, in index order, as fresh
    /// byte vectors.
    #[verifier::loop_isolation(false)]
    pub fn get_encrypted_output(&self, r: &ResourceId) -> (out: Vec<Vec<u8>>)
        ensures
            out@.len() == self.spec_outputs(r@).len(),
            forall|i: int|
                0 <= i < out@.len() ==> #[trigger] out@[i]@ == self.spec_outputs(r@)[i].1,
    {
        let idx = find_cache_idx(&self.encrypted_outputs, r);
        let mut out: Vec<Vec<u8>> = Vec::new();
        match idx {
            Option::Some(qi) => {
                let entry = &self.encrypted_outputs[qi].1;
                let n = entry.len();
                let mut k: usize = 0;
                while k < n
                    invariant
                        k <= n,
                        out@.len() == k,
                        forall|i: int|
                            0 <= i < k ==> #[trigger] out@[i]@ == self.spec_outputs(r@)[i].1,
                    decreases n - k,
                {
                    out.push(copy_bytes(&entry[k].1));
                    k += 1;
                }
                out
            },
            Option::None => out,
        }
    }

    /// Appends a batch of encrypted-output records under `r`. The batch
    /// must continue the contiguous index sequence exactly; otherwise
    /// nothing changes and the batch is rejected.
    #[verifier::loop_isolation(false)]
    pub fn insert_encrypted_output(&mut self, r: &ResourceId, batch: Vec<(u32, Vec<u8>)>) -> (res:
        Result<(), RelayerError>)
        requires
            old(self).wf(),
        ensures
            final(self).wf(),
            (res is Ok) == (forall|k: int|
                0 <= k < batch@.len() ==> #[trigger] batch@[k].0 == old(self).spec_outputs(
                    r@,
                ).len() + k),
            res is Ok ==> final(self).spec_outputs(r@) == old(self).spec_outputs(r@)
                + spec_pairs_view(batch@),
            res is Ok ==> forall|r2: ResourceIdView|
                r2 != r@ ==> #[trigger] final(self).spec_outputs(r2) == old(self).spec_outputs(
                    r2,
                ),
            res is Err ==> *final(self) == *old(self),
            res matches Err(e) ==> e == RelayerError::NonContiguousLeaves,
            final(self).leaves == old(self).leaves,
            final(self).checkpoints == old(self).checkpoints,
            final(self).deposit_blocks == old(self).deposit_blocks,
            final(self).event_hashes == old(self).event_hashes,
            final(self).queues == old(self).queues,
            final(self).proposals == old(self).proposals,
    {
        let idx = find_cache_idx(&self.encrypted_outputs, r);
        let cur_len: usize = match idx {
            Option::Some(qi) => self.encrypted_outputs[qi].1.len(),
            Option::None => 0,
        };
        proof {
            if spec_find(self.encrypted_outputs@, spec_cache_key_is(r@)) >= 0 {
                assert(spec_pairs_contiguous(
                    spec_pairs_view(
                        self.encrypted_outputs@[spec_find(
                            self.encrypted_outputs@,
                            spec_cache_key_is(r@),
                        )].1@,
                    ),
                ));
            }
            assert(cur_len == self.spec_outputs(r@).len());
            assert(cur_len <= 0x1_0000_0000);
        }
        let m = batch.len();
        let mut k: usize = 0;
        while k < m
            invariant
                k <= m,
                cur_len as int + k as int <= 0x1_0000_0001,
                forall|j: int|
                    0 <= j < k ==> #[trigger] batch@[j].0 == old(self).spec_outputs(r@).len() + j,
            decreases m - k,
        {
            let expected: u64 = cur_len as u64 + k as u64;
            if batch[k].0 as u64 != expected {
                return Result::Err(RelayerError::NonContiguousLeaves);
            }
            k += 1;
        }
        let ghost old_entries = self.encrypted_outputs@;
        match idx {
            Option::Some(qi) => {
                let mut pair = self.encrypted_outputs.remove(qi);
                let ghost old_pairs = pair.1@;
                append_pairs(&mut pair.1, batch);
                self.encrypted_outputs.insert(qi, pair);
                proof {
                    lemma_find_props(old_entries, spec_cache_key_is(r@));
                    assert(self.encrypted_outputs@ =~= old_entries.update(
                        qi as int,
                        (old_entries[qi as int].0, self.encrypted_outputs@[qi as int].1),
                    ));
                    lemma_insert_cache_update(
                        old_entries,
                        self.encrypted_outputs@,
                        qi as int,
                        r@,
                        old_pairs,
                        batch@,
                        false,
                    );
                }
                Result::Ok(())
            },
            Option::None => {
                let rid = clone_resource_id(r);
                let mut entry: CacheEntry = Vec::new();
                append_pairs(&mut entry, batch);
                self.encrypted_outputs.push((rid, entry));
                proof {
                    lemma_insert_cache_push(
                        old_entries,
                        self.encrypted_outputs@,
                        r@,
                        batch@,
                        false,
                    );
                }
                Result::Ok(())
            },
        }
    }

    /// Sets the checkpoint of `r` and hands back the one it replaced, or 0
    /// when none was set.
    pub fn set_last_block_number(&mut self, r: &ResourceId, block_number: u64) -> (prev: u64)
        requires
            old(self).wf(),
        ensures
            final(self).wf(),
            final(self).spec_checkpoint(r@) == Some(block_number),
            prev == match old(self).spec_checkpoint(r@) {
                Some(b) => b,
                None => 0u64,
            },
            forall|r2: ResourceIdView|
                r2 != r@ ==> #[trigger] final(self).spec_checkpoint(r2) == old(
                    self,
                ).spec_checkpoint(r2),
            final(self).leaves == old(self).leaves,
            final(self).encrypted_outputs == old(self).encrypted_outputs,
            final(self).deposit_blocks == old(self).deposit_blocks,
            final(self).event_hashes == old(self).event_hashes,
            final(self).queues == old(self).queues,
            final(self).proposals == old(self).proposals,
    {
        set_block_entry(&mut self.checkpoints, r, block_number)
    }

    /// The checkpoint of `r`, or `default_block_number` when none was set.
    pub fn get_last_block_number(&self, r: &ResourceId, default_block_number: u64) -> (b: u64)
        ensures
            b == match self.spec_checkpoint(r@) {
                Some(x) => x,
                None => default_block_number,
            },
    {
        match find_block_idx(&self.checkpoints, r) {
            Option::Some(i) => self.checkpoints[i].1,
            Option::None => default_block_number,
        }
    }

    /// The checkpoint of `r`, defaulting to block 1.
    pub fn get_last_block_number_or_default(&self, r: &ResourceId) -> (b: u64)
        ensures
            b == match self.spec_checkpoint(r@) {
                Some(x) => x,
                None => 1u64,
            },
    {
        self.get_last_block_number(r, 1)
    }

    /// Sets the last deposit block of `r` and hands back the one it
    /// replaced, or 0 when none was set.
    pub fn insert_last_deposit_block_number(&mut self, r: &ResourceId, block_number: u64) -> (prev:
        u64)
        requires
            old(self).wf(),
        ensures
            final(self).wf(),
            final(self).spec_deposit_block(r@) == Some(block_number),
            prev == match old(self).spec_deposit_block(r@) {
                Some(b) => b,
                None => 0u64,
            },
            forall|r2: ResourceIdView|
                r2 != r@ ==> #[trigger] final(self).spec_deposit_block(r2) == old(
                    self,
                ).spec_deposit_block(r2),
            final(self).leaves == old(self).leaves,
            final(self).encrypted_outputs == old(self).encrypted_outputs,
            final(self).checkpoints == old(self).checkpoints,
            final(self).event_hashes == old(self).event_hashes,
            final(self).queues == old(self).queues,
            final(self).proposals == old(self).proposals,
    {
        set_block_entry(&mut self.deposit_blocks, r, block_number)
    }

    /// The last deposit block of `r`, or 0 when none was set.
    pub fn get_last_deposit_block_number(&self, r: &ResourceId) -> (b: u64)
        ensures
            b == match self.spec_deposit_block(r@) {
                Some(x) => x,
                None => 0u64,
            },
    {
        match find_block_idx(&self.deposit_blocks, r) {
            Option::Some(i) => self.deposit_blocks[i].1,
            Option::None => 0,
        }
    }

    /// Marks the serialized event `ev` as handled to completion.
    pub fn store_event(&mut self, ev: &Vec<u8>)
        requires
            old(self).wf(),
        ensures
            final(self).wf(),
            final(self).spec_has_event(ev@),
            forall|d: Seq<u8>|
                d != ev@ ==> #[trigger] final(self).spec_has_event(d) == old(self).spec_has_event(
                    d,
                ),
            final(self).leaves == old(self).leaves,
            final(self).encrypted_outputs == old(self).encrypted_outputs,
            final(self).checkpoints == old(self).checkpoints,
            final(self).deposit_blocks == old(self).deposit_blocks,
            final(self).queues == old(self).queues,
            final(self).proposals == old(self).proposals,
    {
        if self.contains_event(ev) {
            return ;
        }
        let ghost olds = self.event_hashes@;
        let copy = copy_bytes(ev);
        self.event_hashes.push(copy);
        proof {
            lemma_find_push(olds, spec_bytes_is(ev@), self.event_hashes@[olds.len() as int]);
            assert(spec_bytes_is(ev@)(self.event_hashes@[olds.len() as int]));
            assert forall|d: Seq<u8>|
                d != ev@ implies #[trigger] self.spec_has_event(d) == (spec_find(
                olds,
                spec_bytes_is(d),
            ) >= 0) by {
                lemma_find_push(olds, spec_bytes_is(d), self.event_hashes@[olds.len() as int]);
            }
        }
    }

    /// True once the serialized event `ev` was handled to completion.
    #[verifier::loop_isolation(false)]
    pub fn contains_event(&self, ev: &Vec<u8>) -> (r: bool)
        ensures
            r == self.spec_has_event(ev@),
    {
        let n = self.event_hashes.len();
        let mut i: usize = 0;
        while i < n
            invariant
                i <= n,
                forall|j: int| 0 <= j < i ==> #[trigger] self.event_hashes@[j]@ != ev@,
            decreases n - i,
        {
            if bytes_equal(&self.event_hashes[i], ev) {
                proof {
                    lemma_find_at(self.event_hashes@, spec_bytes_is(ev@), i as int);
                }
                return true;
            }
            i += 1;
        }
        proof {
            lemma_find_none(self.event_hashes@, spec_bytes_is(ev@));
        }
        false
    }
}

/// Sets the block number stored under `r` in `entries`, appending a fresh
/// entry when none exists, and hands back the replaced value or 0.
fn set_block_entry(entries: &mut Vec<(ResourceId, u64)>, r: &ResourceId, block_number: u64) -> (prev:
    u64)
    requires
        spec_block_keys_distinct(old(entries)@),
    ensures
        spec_block_keys_distinct(final(entries)@),
        spec_block_lookup(final(entries)@, r@) == Some(block_number),
        prev == match spec_block_lookup(old(entries)@, r@) {
            Some(b) => b,
            None => 0u64,
        },
        forall|r2: ResourceIdView|
            r2 != r@ ==> #[trigger] spec_block_lookup(final(entries)@, r2) == spec_block_lookup(
                old(entries)@,
                r2,
            ),
{
    let ghost olds = entries@;
    match find_block_idx(entries, r) {
        Option::Some(i) => {
            let prev = entries[i].1;
            let rid_keep = entries.remove(i);
            entries.insert(i, (rid_keep.0, block_number));
            proof {
                lemma_find_props(olds, spec_block_key_is(r@));
                assert(entries@ =~= olds.update(i as int, (olds[i as int].0, block_number)));
                lemma_find_update(
                    olds,
                    spec_block_key_is(r@),
                    i as int,
                    (olds[i as int].0, block_number),
                );
                assert forall|i2: int, j2: int|
                    0 <= i2 < entries@.len() && 0 <= j2 < entries@.len() && i2 != j2 implies
                    #[trigger] entries@[i2].0@ != #[trigger] entries@[j2].0@ by {
                    assert(entries@[i2].0 == olds[i2].0);
                    assert(entries@[j2].0 == olds[j2].0);
                }
                assert forall|r2: ResourceIdView|
                    r2 != r@ implies #[trigger] spec_block_lookup(entries@, r2)
                    == spec_block_lookup(olds, r2) by {
                    lemma_find_props(olds, spec_block_key_is(r2));
                    lemma_find_update(
                        olds,
                        spec_block_key_is(r2),
                        i as int,
                        (olds[i as int].0, block_number),
                    );
                    let f2 = spec_find(olds, spec_block_key_is(r2));
                    if f2 >= 0 {
                        assert(olds[f2].0@ == r2);
                        assert(f2 != i);
                        assert(entries@[f2] == olds[f2]);
                    }
                }
            }
            prev
        },
        Option::None => {
            let rid = clone_resource_id(r);
            entries.push((rid, block_number));
            proof {
                let v = entries@[olds.len() as int];
                lemma_find_props(olds, spec_block_key_is(r@));
                lemma_find_push(olds, spec_block_key_is(r@), v);
                assert(spec_block_key_is(r@)(v));
                assert forall|i2: int, j2: int|
                    0 <= i2 < entries@.len() && 0 <= j2 < entries@.len() && i2 != j2 implies
                    #[trigger] entries@[i2].0@ != #[trigger] entries@[j2].0@ by {
                    if i2 < olds.len() && j2 < olds.len() {
                        assert(olds[i2].0@ != olds[j2].0@);
                    } else if i2 < olds.len() && j2 == olds.len() {
                        assert(!(spec_block_key_is(r@)(olds[i2])));
                    } else if j2 < olds.len() && i2 == olds.len() {
                        assert(!(spec_block_key_is(r@)(olds[j2])));
                    }
                }
                assert forall|r2: ResourceIdView|
                    r2 != r@ implies #[trigger] spec_block_lookup(entries@, r2)
                    == spec_block_lookup(olds, r2) by {
                    lemma_find_props(olds, spec_block_key_is(r2));
                    lemma_find_push(olds, spec_block_key_is(r2), v);
                    let f2 = spec_find(olds, spec_block_key_is(r2));
                    if f2 >= 0 {
                        assert(entries@[f2] == olds[f2]);
                    }
                }
            }
            0
        },
    }
}

/// For every resource id, the sequence of leaf indices in the cache reads
/// 0, 1, …, n-1 at any observation time.
pub proof fn lemma_leaf_indices_contiguous(s: MemStore, r: ResourceIdView)
    requires
        s.wf(),
    ensures
        forall|i: int| 0 <= i < s.spec_leaves(r).len() ==> #[trigger] s.spec_leaves(r)[i].0 == i,
{
    lemma_find_props(s.leaves@, spec_cache_key_is(r));
    let f = spec_find(s.leaves@, spec_cache_key_is(r));
    if f >= 0 {
        assert(spec_pairs_contiguous(spec_pairs_view(s.leaves@[f].1@)));
    }
}


/// A store of pending proposals keyed by the hash of their data.
pub trait ProposalStore {
    /// The stored proposal bytes under a data hash, if any.
    spec fn spec_proposal_of(&self, data_hash: Seq<u8>) -> Option<Seq<u8>>;

    /// Stores a proposal under its data hash, replacing any earlier one;
    /// every other data hash reads as before.
    fn insert_proposal(&mut self, data_hash: Vec<u8>, bytes: Vec<u8>)
        ensures
            final(self).spec_proposal_of(data_hash@) == Some(bytes@),
            forall|h2: Seq<u8>|
                h2 != data_hash@ ==> #[trigger] final(self).spec_proposal_of(h2) == old(
                    self,
                ).spec_proposal_of(h2),
    ;

    /// Removes and hands back the proposal under a data hash, if any;
    /// every other data hash reads as before.
    fn remove_proposal(&mut self, data_hash: &Vec<u8>) -> (r: Option<Vec<u8>>)
        ensures
            match r {
                Some(b) => Some(b@) == old(self).spec_proposal_of(data_hash@),
                None => old(self).spec_proposal_of(data_hash@) is None,
            },
            forall|h2: Seq<u8>|
                h2 != data_hash@ ==> #[trigger] final(self).spec_proposal_of(h2) == old(
                    self,
                ).spec_proposal_of(h2),
    ;
}

impl ProposalStore for MemStore {
    open spec fn spec_proposal_of(&self, data_hash: Seq<u8>) -> Option<Seq<u8>> {
        self.spec_proposal(data_hash)
    }

    #[verifier::loop_isolation(false)]
    fn insert_proposal(&mut self, data_hash: Vec<u8>, bytes: Vec<u8>)
        ensures
            final(self).leaves == old(self).leaves,
            final(self).encrypted_outputs == old(self).encrypted_outputs,
            final(self).checkpoints == old(self).checkpoints,
            final(self).deposit_blocks == old(self).deposit_blocks,
            final(self).event_hashes == old(self).event_hashes,
            final(self).queues == old(self).queues,
    {
        let n = self.proposals.len();
        let mut i: usize = 0;
        while i < n
            invariant
                i <= n,
                n == self.proposals@.len(),
                *self == *old(self),
                forall|j: int| 0 <= j < i ==> #[trigger] self.proposals@[j].0@ != data_hash@,
            decreases n - i,
        {
            if bytes_equal(&self.proposals[i].0, &data_hash) {
                let ghost olds = self.proposals@;
                let old_pair = self.proposals.remove(i);
                self.proposals.insert(i, (old_pair.0, bytes));
                proof {
                    assert(self.proposals@ =~= olds.update(
                        i as int,
                        (olds[i as int].0, self.proposals@[i as int].1),
                    ));
                    lemma_find_update(
                        olds,
                        spec_hash_key_is(data_hash@),
                        i as int,
                        (olds[i as int].0, self.proposals@[i as int].1),
                    );
                    lemma_find_at(olds, spec_hash_key_is(data_hash@), i as int);
                    assert forall|h2: Seq<u8>|
                        h2 != data_hash@ implies #[trigger] self.spec_proposal(h2) == old(
                        self,
                    ).spec_proposal(h2) by {
                        lemma_find_props(olds, spec_hash_key_is(h2));
                        lemma_find_update(
                            olds,
                            spec_hash_key_is(h2),
                            i as int,
                            (olds[i as int].0, self.proposals@[i as int].1),
                        );
                        let f2 = spec_find(olds, spec_hash_key_is(h2));
                        if f2 >= 0 {
                            assert(olds[f2].0@ == h2);
                            assert(f2 != i);
                            assert(self.proposals@[f2] == olds[f2]);
                        }
                    }
                }
                return ;
            }
            i += 1;
        }
        let ghost olds = self.proposals@;
        self.proposals.push((data_hash, bytes));
        proof {
            let v = self.proposals@[olds.len() as int];
            lemma_find_none(olds, spec_hash_key_is(v.0@));
            lemma_find_push(olds, spec_hash_key_is(v.0@), v);
            assert(spec_hash_key_is(v.0@)(v));
            assert forall|h2: Seq<u8>|
                h2 != v.0@ implies #[trigger] self.spec_proposal(h2) == old(self).spec_proposal(
                h2,
            ) by {
                lemma_find_props(olds, spec_hash_key_is(h2));
                lemma_find_push(olds, spec_hash_key_is(h2), v);
                assert(!(spec_hash_key_is(h2)(v)));
                let f2 = spec_find(olds, spec_hash_key_is(h2));
                if f2 >= 0 {
                    assert(self.proposals@[f2] == olds[f2]);
                }
            }
        }
    }

    #[verifier::loop_isolation(false)]
    fn remove_proposal(&mut self, data_hash: &Vec<u8>) -> (r: Option<Vec<u8>>)
        ensures
            final(self).leaves == old(self).leaves,
            final(self).encrypted_outputs == old(self).encrypted_outputs,
            final(self).checkpoints == old(self).checkpoints,
            final(self).deposit_blocks == old(self).deposit_blocks,
            final(self).event_hashes == old(self).event_hashes,
            final(self).queues == old(self).queues,
    {
        let n = self.proposals.len();
        let mut i: usize = 0;
        while i < n
            invariant
                i <= n,
                n == self.proposals@.len(),
                *self == *old(self),
                forall|j: int| 0 <= j < i ==> #[trigger] self.proposals@[j].0@ != data_hash@,
            decreases n - i,
        {
            if bytes_equal(&self.proposals[i].0, data_hash) {
                let ghost olds = self.proposals@;
                proof {
                    lemma_find_at(olds, spec_hash_key_is(data_hash@), i as int);
                }
                let pair = self.proposals.remove(i);
                proof {
                    assert forall|h2: Seq<u8>|
                        h2 != data_hash@ implies #[trigger] self.spec_proposal(h2) == old(
                        self,
                    ).spec_proposal(h2) by {
                        lemma_find_props(olds, spec_hash_key_is(h2));
                        assert(!(spec_hash_key_is(h2)(olds[i as int])));
                        crate::lookup::lemma_find_remove(olds, spec_hash_key_is(h2), i as int);
                    }
                }
                return Option::Some(pair.1);
            }
            i += 1;
        }
        proof {
            lemma_find_none(self.proposals@, spec_hash_key_is(data_hash@));
        }
        Option::None
    }
}


impl MemStore {
    /// The cached leaf commitments under `r` whose indices lie in
    /// `[start, end)`, clamped to what the cache holds.
    #[verifier::loop_isolation(false)]
    pub fn get_leaves_with_range(&self, r: &ResourceId, start: u32, end: u32) -> (out: Vec<
        Vec<u8>,
    >)
        ensures
            ({
                let leaves = self.spec_leaves(r@);
                let hi = if end as int <= leaves.len() {
                    end as int
                } else {
                    leaves.len() as int
                };
                let lo = if start as int <= hi {
                    start as int
                } else {
                    hi
                };
                &&& out@.len() == hi - lo
                &&& forall|i: int|
                    0 <= i < out@.len() ==> #[trigger] out@[i]@ == leaves[lo + i].1
            }),
    {
        let mut out: Vec<Vec<u8>> = Vec::new();
        let idx = find_cache_idx(&self.leaves, r);
        match idx {
            Option::Some(qi) => {
                let entry = &self.leaves[qi].1;
                let n = entry.len();
                let hi: usize = if (end as usize) <= n {
                    end as usize
                } else {
                    n
                };
                let lo: usize = if (start as usize) <= hi {
                    start as usize
                } else {
                    hi
                };
                let mut k: usize = lo;
                while k < hi
                    invariant
                        lo <= k <= hi,
                        out@.len() == k - lo,
                        forall|i: int|
                            0 <= i < out@.len() ==> #[trigger] out@[i]@ == self.spec_leaves(
                                r@,
                            )[lo + i].1,
                    decreases hi - k,
                {
                    out.push(copy_bytes(&entry[k].1));
                    k += 1;
                }
                out
            },
            Option::None => out,
        }
    }
}

} // verus!
