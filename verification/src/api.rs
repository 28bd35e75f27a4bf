//! The user-facing surface's plain types and the decisions behind it: the
//! leaf-cache query, the transaction-status query, and the admission rule
//! every user-submitted withdrawal must satisfy before its transaction
//! enters the queue.

use vstd::prelude::*;
use vstd::string::StringExecFns;

use crate::fees::{calculate_wrapped_refund_amount, FeeInfo};
use crate::proposals::{ResourceId, ResourceIdView};
use crate::queue::{
    spec_enqueue, QueueId, QueueIdView, QueueItem, QueueItemView, QueueStateView,
};
use crate::signing::spec_keccak512;
use crate::store::MemStore;

verus! {

/// The relayer's externally visible address information.
#[derive(Clone, Debug)]
pub struct IpInformationResponse {
    /// The caller's address, as text.
    pub ip: String,
}

/// A signed 128-bit value carried through the command surface.
#[derive(Clone, Copy, Debug, PartialEq, Eq, Structural)]
pub struct WebbI128(pub i128);

/// The network-side status reported to a withdrawal caller.
#[derive(Clone, Debug)]
pub enum NetworkStatus {
    /// The relayer is connecting to the chain.
    Connecting,
    /// The relayer is connected.
    Connected,
    /// The connection failed, with the client's reason.
    Failed { reason: String },
    /// The relayer disconnected.
    Disconnected,
    /// The requested chain is not configured.
    UnsupportedChain,
    /// The requested contract is not configured.
    UnsupportedContract,
    /// The command named another relayer's address.
    InvalidRelayerAddress,
}

/// Why a withdrawal command was rejected. Amount-carrying variants hold
/// the bound the command failed against.
#[derive(Clone, Copy, Debug, PartialEq, Eq, Structural)]
pub enum TransactionRelayingError {
    /// The requested chain is not configured.
    UnsupportedChain,
    /// The requested contract is not configured on the chain.
    UnsupportedContract,
    /// The command named another relayer's address.
    InvalidRelayerAddress,
    /// The merkle roots are not a whole number of 32-byte words.
    InvalidMerkleRoots,
    /// The refund or fee failed its bound; the bound it failed against.
    InvalidRefundAmount { expected: u128 },
    /// The refund could not be converted into the wrapped token.
    WrappingFeeError,
    /// The transaction could not be queued.
    TransactionQueueError,
    /// The chain's network configuration is unusable.
    NetworkConfigurationError,
    /// The chain client failed.
    ClientError,
}

/// The leaf-cache query's answer: the commitments in index order and the
/// last block a deposit was seen in.
#[derive(Clone, Debug)]
pub struct LeavesCacheResponse {
    /// The cached commitments, in index order.
    pub leaves: Vec<Vec<u8>>,
    /// The last block whose deposit reached the cache.
    pub last_queried_block: u64,
}

/// A rejected leaf-cache query: an HTTP status and a message.
#[derive(Clone, Debug)]
pub struct LeavesError {
    /// The HTTP status the surface answers with.
    pub status: u16,
    /// The reason, as text.
    pub message: String,
}

/// The slice of the cached leaves a `[start, end)` query answers with,
/// clamped to what the cache holds.
pub open spec fn spec_leaves_range_ok(
    store: MemStore,
    src: ResourceIdView,
    start: u32,
    end: u32,
    resp: LeavesCacheResponse,
) -> bool {
    let leaves = store.spec_leaves(src);
    let hi = if end as int <= leaves.len() {
        end as int
    } else {
        leaves.len() as int
    };
    let lo = if start as int <= hi {
        start as int
    } else {
        hi
    };
    &&& resp.leaves@.len() == hi - lo
    &&& (forall|i: int| 0 <= i < resp.leaves@.len() ==> #[trigger] resp.leaves@[i]@ == leaves[lo + i].1)
    &&& resp.last_queried_block == (match store.spec_deposit_block(src) {
        Some(b) => b,
        None => 0u64,
    })
}

/// Answers a leaf-cache query for one EVM anchor: data querying must be on
/// for the relayer, the chain and contract must be configured, and the
/// contract must allow data queries; then the cached leaves with indices
/// in `[start, end)` and the last deposit block are returned.
pub fn handle_leaves_cache_evm(
    store: &MemStore,
    data_query_enabled: bool,
    chain_supported: bool,
    contract_supported: bool,
    contract_data_query_enabled: bool,
    src: &ResourceId,
    start: u32,
    end: u32,
) -> (r: Result<LeavesCacheResponse, LeavesError>)
    ensures
        !data_query_enabled ==> (r matches Err(e) && e.status == 403),
        data_query_enabled && !chain_supported ==> (r matches Err(e) && e.status == 400),
        data_query_enabled && chain_supported && !contract_supported ==> (r matches Err(e)
            && e.status == 400),
        data_query_enabled && chain_supported && contract_supported
            && !contract_data_query_enabled ==> (r matches Err(e) && e.status == 403),
        data_query_enabled && chain_supported && contract_supported
            && contract_data_query_enabled ==> (r matches Ok(resp) && spec_leaves_range_ok(
            *store,
            src@,
            start,
            end,
            resp,
        )),
{
    if !data_query_enabled {
        return Result::Err(
            LeavesError {
                status: 403,
                message: String::from_str("data query is not enabled for relayer"),
            },
        );
    }
    if !chain_supported {
        return Result::Err(
            LeavesError { status: 400, message: String::from_str("unsupported chain") },
        );
    }
    if !contract_supported {
        return Result::Err(
            LeavesError { status: 400, message: String::from_str("unsupported contract") },
        );
    }
    if !contract_data_query_enabled {
        return Result::Err(
            LeavesError {
                status: 403,
                message: String::from_str("data query is not enabled for contract"),
            },
        );
    }
    let leaves = store.get_leaves_with_range(src, start, end);
    let last_queried_block = store.get_last_deposit_block_number(src);
    Result::Ok(LeavesCacheResponse { leaves, last_queried_block })
}

/// Answers a leaf-cache query for one Substrate tree; the same admission
/// as the EVM variant, without a per-contract switch.
pub fn handle_leaves_cache_substrate(
    store: &MemStore,
    data_query_enabled: bool,
    src: &ResourceId,
    start: u32,
    end: u32,
) -> (r: Result<LeavesCacheResponse, LeavesError>)
    ensures
        !data_query_enabled ==> (r matches Err(e) && e.status == 403),
        data_query_enabled ==> (r matches Ok(resp) && spec_leaves_range_ok(
            *store,
            src@,
            start,
            end,
            resp,
        )),
{
    if !data_query_enabled {
        return Result::Err(
            LeavesError {
                status: 403,
                message: String::from_str("data query is not enabled for relayer"),
            },
        );
    }
    let leaves = store.get_leaves_with_range(src, start, end);
    let last_queried_block = store.get_last_deposit_block_number(src);
    Result::Ok(LeavesCacheResponse { leaves, last_queried_block })
}

/// Answers a transaction-status query: the state of the queued item under
/// `item_key` on one chain's transaction queue, if it is still there.
pub fn handle_transaction_status_evm<'a>(
    store: &'a MemStore,
    chain_id: u64,
    item_key: &Vec<u8>,
) -> (r: Option<&'a QueueItem>)
    ensures
        match r {
            Option::Some(it) => crate::queue::spec_queue_contains_key(
                store.spec_queue((QueueIdView::Evm { chain_id })),
                item_key@,
            ) && it@ == store.spec_queue((QueueIdView::Evm { chain_id }))[
                crate::queue::spec_queue_find_key(
                    store.spec_queue((QueueIdView::Evm { chain_id })),
                    item_key@,
                )
            ],
            Option::None => !crate::queue::spec_queue_contains_key(
                store.spec_queue((QueueIdView::Evm { chain_id })),
                item_key@,
            ),
        },
{
    let q = QueueId::Evm { chain_id };
    store.get_item(&q, item_key)
}

/// The admission rule of a user withdrawal, in the order its conditions
/// are tried: chain, contract, relayer address, root shape,
/// refund ceiling, then the fee floor of 96% of the estimate — the exact
/// integer floor of `estimated_fee * 96 / 100` — plus the refund's
/// wrapped equivalent. A command that passes is queued on the chain's
/// transaction queue under the digest of its payload, and nothing is
/// written for one that fails.
pub open spec fn spec_relay_outcome(
    chain_supported: bool,
    contract_supported: bool,
    relayer_matches: bool,
    roots_len: int,
    fee: u128,
    refund: u128,
    info: FeeInfo,
) -> Result<(), TransactionRelayingError> {
    if !chain_supported {
        Err(TransactionRelayingError::UnsupportedChain)
    } else if !contract_supported {
        Err(TransactionRelayingError::UnsupportedContract)
    } else if !relayer_matches {
        Err(TransactionRelayingError::InvalidRelayerAddress)
    } else if roots_len % 32 != 0 {
        Err(TransactionRelayingError::InvalidMerkleRoots)
    } else if refund > info.max_refund {
        Err(TransactionRelayingError::InvalidRefundAmount { expected: info.max_refund })
    } else {
        match crate::fees::spec_wrapped_refund_amount(refund, info.refund_exchange_rate) {
            None => Err(TransactionRelayingError::WrappingFeeError),
            Some(wrapped) => {
                let required = info.estimated_fee * 96 / 100 + wrapped;
                if fee < required {
                    Err(
                        TransactionRelayingError::InvalidRefundAmount {
                            expected: (if required > u128::MAX {
                                u128::MAX
                            } else {
                                required as u128
                            }),
                        },
                    )
                } else {
                    Ok(())
                }
            },
        }
    }
}

/// Validates and queues one user withdrawal; hands back the queued item's
/// 64-byte key. On any rejection the store is untouched: no item is
/// queued and every queue reads as before.
pub fn handle_vanchor_relay_tx(
    store: &mut MemStore,
    chain_id: u64,
    chain_supported: bool,
    contract_supported: bool,
    relayer_matches: bool,
    roots_len: usize,
    fee: u128,
    refund: u128,
    info: &FeeInfo,
    tx_payload: Vec<u8>,
    now: u64,
    ttl_ms: u64,
) -> (r: Result<Vec<u8>, TransactionRelayingError>)
    requires
        old(store).wf(),
    ensures
        final(store).wf(),
        r matches Err(e) ==> Err::<(), _>(e) == spec_relay_outcome(
            chain_supported,
            contract_supported,
            relayer_matches,
            roots_len as int,
            fee,
            refund,
            *info,
        ) && *final(store) == *old(store),
        r matches Ok(key) ==> spec_relay_outcome(
            chain_supported,
            contract_supported,
            relayer_matches,
            roots_len as int,
            fee,
            refund,
            *info,
        ) is Ok && key@ == spec_keccak512(tx_payload@) && final(store).spec_queue(
            (QueueIdView::Evm { chain_id }),
        ) == spec_enqueue(
            old(store).spec_queue((QueueIdView::Evm { chain_id })),
            (QueueItemView {
                key: spec_keccak512(tx_payload@),
                payload: tx_payload@,
                state: QueueStateView::Pending,
                created_at: now,
                ttl_ms,
            }),
        ),
        forall|q2: QueueIdView|
            q2 != (QueueIdView::Evm { chain_id }) ==> #[trigger] final(store).spec_queue(q2)
                == old(store).spec_queue(q2),
        final(store).leaves == old(store).leaves,
        final(store).encrypted_outputs == old(store).encrypted_outputs,
        final(store).checkpoints == old(store).checkpoints,
        final(store).deposit_blocks == old(store).deposit_blocks,
        final(store).event_hashes == old(store).event_hashes,
        final(store).proposals == old(store).proposals,
{
    if !chain_supported {
        return Result::Err(TransactionRelayingError::UnsupportedChain);
    }
    if !contract_supported {
        return Result::Err(TransactionRelayingError::UnsupportedContract);
    }
    if !relayer_matches {
        return Result::Err(TransactionRelayingError::InvalidRelayerAddress);
    }
    if roots_len % 32 != 0 {
        return Result::Err(TransactionRelayingError::InvalidMerkleRoots);
    }
    if refund > info.max_refund {
        return Result::Err(
            TransactionRelayingError::InvalidRefundAmount { expected: info.max_refund },
        );
    }
    let wrapped = match calculate_wrapped_refund_amount(refund, info.refund_exchange_rate) {
        Result::Ok(w) => w,
        Result::Err(_) => {
            return Result::Err(TransactionRelayingError::WrappingFeeError);
        },
    };
    // `estimated_fee * 96` may not fit, so the floor of 96% is computed
    // through the quotient and remainder by 100, which agrees with it
    // exactly.
    let q = info.estimated_fee / 100;
    let r = info.estimated_fee % 100;
    proof {
        vstd::arithmetic::div_mod::lemma_fundamental_div_mod(info.estimated_fee as int, 100);
        vstd::arithmetic::div_mod::lemma_hoist_over_denominator(
            96 * (r as int),
            96 * (q as int),
            100,
        );
        assert(info.estimated_fee as int * 96 == 96 * (r as int) + (96 * (q as int)) * 100);
        vstd::arithmetic::mul::lemma_mul_inequality(q as int, (u128::MAX / 100) as int, 96);
        assert(q as int * 96 + (r as int) * 96 / 100 == info.estimated_fee as int * 96 / 100);
    }
    let adjusted = q * 96 + r * 96 / 100;
    let required = match adjusted.checked_add(wrapped) {
        Option::Some(t) => t,
        Option::None => {
            return Result::Err(
                TransactionRelayingError::InvalidRefundAmount { expected: u128::MAX },
            );
        },
    };
    if fee < required {
        return Result::Err(
            TransactionRelayingError::InvalidRefundAmount { expected: required },
        );
    }
    let key = crate::signing::payload_key(&tx_payload);
    let q = QueueId::Evm { chain_id };
    let item = QueueItem::new(crate::bytes::copy_bytes(&key), tx_payload, now, ttl_ms);
    match store.enqueue_item(&q, item) {
        Result::Ok(_) => Result::Ok(key),
        Result::Err(_) => Result::Err(TransactionRelayingError::TransactionQueueError),
    }
}

} // verus!
