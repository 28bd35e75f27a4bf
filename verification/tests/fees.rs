//! Fee arithmetic, the fee cache and the withdrawal admission rule.

use webb_relayer::api::{handle_vanchor_relay_tx, TransactionRelayingError};
use webb_relayer::fees::{
    calculate_transaction_fee, calculate_wrapped_refund_amount, get_base_token_name, max_refund,
    normalize_token_name, FeeInfo, FeeInfoCache, FEE_CACHE_TIME_MS,
};
use webb_relayer::queue::QueueId;
use webb_relayer::store::MemStore;
use webb_relayer::RelayerError;

fn fee_info(estimated_fee: u128, max_refund: u128, rate: u128) -> FeeInfo {
    FeeInfo {
        estimated_fee,
        gas_price: 7,
        refund_exchange_rate: rate,
        max_refund,
        timestamp_ms: 0,
    }
}

#[test]
fn transaction_fee_formula() {
    // 5 USD profit at 1 USD per token is 5 tokens, plus gas
    let fee = calculate_transaction_fee(10, 5, 1_000_000).unwrap();
    assert_eq!(fee, 5_000_000_000_000_000_000u128 + 50);
    assert_eq!(
        calculate_transaction_fee(10, 5, 0),
        Err(RelayerError::Config)
    );
}

#[test]
fn max_refund_formula() {
    // 1 USD ceiling at 2 USD per token is half a token
    assert_eq!(max_refund(2_000_000).unwrap(), 500_000_000_000_000_000u128);
    assert_eq!(max_refund(0), Err(RelayerError::Config));
}

#[test]
fn wrapped_refund_formula() {
    // 10 wei of refund at 2 tokens per native unit halves
    let rate = 2_000_000_000_000_000_000u128;
    assert_eq!(calculate_wrapped_refund_amount(10, rate).unwrap(), 5);
    // a zero exchange rate is a configuration fault, never a division
    assert_eq!(
        calculate_wrapped_refund_amount(10, 0),
        Err(RelayerError::Config)
    );
}

#[test]
fn base_token_names() {
    assert_eq!(get_base_token_name(1).unwrap(), "ethereum");
    assert_eq!(get_base_token_name(5001).unwrap(), "ethereum");
    assert_eq!(get_base_token_name(10).unwrap(), "optimism");
    assert_eq!(get_base_token_name(80001).unwrap(), "polygon");
    assert_eq!(get_base_token_name(1287).unwrap(), "moonbeam");
    assert_eq!(
        get_base_token_name(424242),
        Err(RelayerError::ChainNotFound)
    );
}

#[test]
fn fee_cache_serves_only_fresh_quotes() {
    let mut cache = FeeInfoCache::new();
    let anchor = vec![0xaau8; 20];
    let quote = FeeInfo {
        estimated_fee: 100,
        gas_price: 3,
        refund_exchange_rate: 1,
        max_refund: 50,
        timestamp_ms: 1_000,
    };
    assert!(cache.lookup_fee_info(1, &anchor, 1_000).is_none());
    cache.insert_fee_info(1, &anchor, quote);
    assert_eq!(cache.lookup_fee_info(1, &anchor, 2_000), Some(quote));
    // another key sees nothing
    assert!(cache.lookup_fee_info(2, &anchor, 2_000).is_none());
    // past the TTL the quote is no longer served
    assert!(cache
        .lookup_fee_info(1, &anchor, 1_000 + FEE_CACHE_TIME_MS)
        .is_none());
    cache.evict_cache(1_000 + FEE_CACHE_TIME_MS);
    assert!(cache.lookup_fee_info(1, &anchor, 1_001).is_none());
}

#[test]
fn fee_cache_insert_keeps_other_anchors() {
    let mut cache = FeeInfoCache::new();
    let anchor_a = vec![0xaau8; 20];
    let anchor_b = vec![0xbbu8; 20];
    let quote_a = FeeInfo {
        estimated_fee: 100,
        gas_price: 3,
        refund_exchange_rate: 1,
        max_refund: 50,
        timestamp_ms: 1_000,
    };
    let quote_b = FeeInfo {
        estimated_fee: 200,
        ..quote_a
    };
    cache.insert_fee_info(1, &anchor_a, quote_a);
    cache.insert_fee_info(1, &anchor_b, quote_b);
    // replacing one anchor's quote leaves the other untouched
    let quote_a2 = FeeInfo {
        estimated_fee: 150,
        ..quote_a
    };
    cache.insert_fee_info(1, &anchor_a, quote_a2);
    assert_eq!(cache.lookup_fee_info(1, &anchor_a, 1_500), Some(quote_a2));
    assert_eq!(cache.lookup_fee_info(1, &anchor_b, 1_500), Some(quote_b));
}

#[test]
fn fee_rejection_leaves_queue_untouched() {
    // 0.96 of the 125 wei estimate is 120; a 100 wei fee is too low
    let mut store = MemStore::new();
    let info = fee_info(125, 1_000, 1_000_000_000_000_000_000);
    let r = handle_vanchor_relay_tx(
        &mut store,
        1,
        true,
        true,
        true,
        32,
        100,
        0,
        &info,
        vec![0xab; 10],
        1_000,
        600_000,
    );
    assert_eq!(
        r,
        Err(TransactionRelayingError::InvalidRefundAmount { expected: 120 })
    );
    let q = QueueId::Evm { chain_id: 1 };
    assert!(store.peek_item(&q).is_none());
}

#[test]
fn sufficient_fee_is_queued() {
    let mut store = MemStore::new();
    let info = fee_info(125, 1_000, 1_000_000_000_000_000_000);
    let key = handle_vanchor_relay_tx(
        &mut store,
        1,
        true,
        true,
        true,
        32,
        120,
        0,
        &info,
        vec![0xab; 10],
        1_000,
        600_000,
    )
    .unwrap();
    assert_eq!(key.len(), 64);
    let q = QueueId::Evm { chain_id: 1 };
    let head = store.peek_item(&q).unwrap();
    assert_eq!(head.payload, vec![0xab; 10]);
    assert_eq!(head.key, key);
}

#[test]
fn refund_above_ceiling_is_rejected() {
    let mut store = MemStore::new();
    let info = fee_info(0, 50, 1_000_000_000_000_000_000);
    let r = handle_vanchor_relay_tx(
        &mut store,
        1,
        true,
        true,
        true,
        0,
        1_000,
        51,
        &info,
        Vec::new(),
        0,
        1,
    );
    assert_eq!(
        r,
        Err(TransactionRelayingError::InvalidRefundAmount { expected: 50 })
    );
}

#[test]
fn refund_with_zero_rate_is_a_wrapping_fault() {
    let mut store = MemStore::new();
    let info = fee_info(0, 50, 0);
    let r = handle_vanchor_relay_tx(
        &mut store,
        1,
        true,
        true,
        true,
        0,
        1_000,
        10,
        &info,
        Vec::new(),
        0,
        1,
    );
    assert_eq!(r, Err(TransactionRelayingError::WrappingFeeError));
}

#[test]
fn precheck_rejections_in_order() {
    let mut store = MemStore::new();
    let info = fee_info(0, 0, 1);
    let r = handle_vanchor_relay_tx(
        &mut store, 1, false, true, true, 0, 0, 0, &info, Vec::new(), 0, 1,
    );
    assert_eq!(r, Err(TransactionRelayingError::UnsupportedChain));
    let r = handle_vanchor_relay_tx(
        &mut store, 1, true, false, true, 0, 0, 0, &info, Vec::new(), 0, 1,
    );
    assert_eq!(r, Err(TransactionRelayingError::UnsupportedContract));
    let r = handle_vanchor_relay_tx(
        &mut store, 1, true, true, false, 0, 0, 0, &info, Vec::new(), 0, 1,
    );
    assert_eq!(r, Err(TransactionRelayingError::InvalidRelayerAddress));
    let r = handle_vanchor_relay_tx(
        &mut store, 1, true, true, true, 33, 0, 0, &info, Vec::new(), 0, 1,
    );
    assert_eq!(r, Err(TransactionRelayingError::InvalidMerkleRoots));
}

#[test]
fn token_name_normalization() {
    // the wrapped ether name maps to the oracle's token name
    assert_eq!(
        normalize_token_name(&b"webbWETH".to_vec()),
        b"ethereum".to_vec()
    );
    // other wrapped names only lose their prefix
    assert_eq!(normalize_token_name(&b"webbUSDC".to_vec()), b"USDC".to_vec());
    // an unwrapped name is untouched
    assert_eq!(normalize_token_name(&b"DAI".to_vec()), b"DAI".to_vec());
    // every occurrence of the prefix goes
    assert_eq!(
        normalize_token_name(&b"webbwebbDAI".to_vec()),
        b"DAI".to_vec()
    );
}
