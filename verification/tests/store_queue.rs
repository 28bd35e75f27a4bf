//! The store and the transaction queue: caches, checkpoints, the item
//! state machine and the drainer's rotation and reaping.

use webb_relayer::drainer::{
    drain_tick, execute_bridge_command, fail_and_rotate, next_sleep_ms, record_dry_run,
    record_status, record_submitted, DrainAction, SubstrateTxQueue, TxStatus,
};
use webb_relayer::signing::{bridge_command_key, encode_bridge_command};
use webb_relayer::proposals::{ResourceId, TargetSystem, TypedChainId};
use webb_relayer::queue::{ProcessingStep, QueueId, QueueItem, QueueItemState};
use webb_relayer::store::{MemStore, ProposalStore};
use webb_relayer::RelayerError;

fn rid(last: u8, chain: u32) -> ResourceId {
    let mut a = vec![0u8; 20];
    a[19] = last;
    ResourceId::new(
        TargetSystem::new_contract_address(a),
        TypedChainId::Evm(chain),
    )
}

fn item(tag: u8, created_at: u64, ttl_ms: u64) -> QueueItem {
    QueueItem::new(vec![tag; 64], vec![tag, tag], created_at, ttl_ms)
}

fn queue_len(store: &mut MemStore, q: &QueueId) -> usize {
    let mut n = 0;
    let mut drained = Vec::new();
    while let Some(it) = store.dequeue_item(q) {
        n += 1;
        drained.push(it);
    }
    for it in drained {
        store.enqueue_item(q, it).unwrap();
    }
    n
}

#[test]
fn leaf_cache_contiguity() {
    let mut store = MemStore::new();
    let r = rid(1, 1);
    store
        .insert_leaves(&r, vec![(0, vec![0xa0; 32]), (1, vec![0xa1; 32])])
        .unwrap();
    // a gap is rejected and nothing changes
    let err = store.insert_leaves(&r, vec![(3, vec![0xa3; 32])]);
    assert_eq!(err, Err(RelayerError::NonContiguousLeaves));
    let leaves = store.get_leaves(&r);
    assert_eq!(leaves, vec![vec![0xa0; 32], vec![0xa1; 32]]);
    // the continuation is accepted
    store.insert_leaves(&r, vec![(2, vec![0xa2; 32])]).unwrap();
    assert_eq!(store.get_leaves(&r).len(), 3);
}

#[test]
fn checkpoint_and_deposit_block() {
    let mut store = MemStore::new();
    let r = rid(2, 1);
    assert_eq!(store.get_last_block_number(&r, 5), 5);
    assert_eq!(store.get_last_block_number_or_default(&r), 1);
    assert_eq!(store.set_last_block_number(&r, 10), 0);
    assert_eq!(store.set_last_block_number(&r, 20), 10);
    assert_eq!(store.get_last_block_number(&r, 5), 20);
    assert_eq!(store.insert_last_deposit_block_number(&r, 110), 0);
    assert_eq!(store.get_last_deposit_block_number(&r), 110);
}

#[test]
fn event_hash_set() {
    let mut store = MemStore::new();
    let ev = vec![1u8, 2, 3];
    assert!(!store.contains_event(&ev));
    store.store_event(&ev);
    assert!(store.contains_event(&ev));
    store.store_event(&ev);
    assert!(store.contains_event(&ev));
    assert!(!store.contains_event(&vec![9u8]));
}

#[test]
fn idempotent_enqueue_keeps_first() {
    let mut store = MemStore::new();
    let q = QueueId::Evm { chain_id: 1 };
    let first = QueueItem::new(vec![7; 64], vec![1], 100, 60_000);
    let second = QueueItem::new(vec![7; 64], vec![2], 999, 60_000);
    store.enqueue_item(&q, first).unwrap();
    store.enqueue_item(&q, second).unwrap();
    assert_eq!(queue_len(&mut store, &q), 1);
    let head = store.peek_item(&q).unwrap();
    assert_eq!(head.created_at, 100);
    assert_eq!(head.payload, vec![1]);
}

#[test]
fn at_most_one_item_per_key() {
    let mut store = MemStore::new();
    let q = QueueId::Evm { chain_id: 1 };
    store.enqueue_item(&q, item(7, 0, 1000)).unwrap();
    store.enqueue_item(&q, item(7, 5, 1000)).unwrap();
    store.enqueue_item(&q, item(8, 0, 1000)).unwrap();
    assert!(store.has_item(&q, &vec![7; 64]));
    assert!(store.remove_item(&q, &vec![7; 64]).is_some());
    assert!(!store.has_item(&q, &vec![7; 64]));
    assert!(store.remove_item(&q, &vec![7; 64]).is_none());
    assert!(store.has_item(&q, &vec![8; 64]));
}

#[test]
fn queue_rotation_serves_pending_after_failed_head() {
    let mut store = MemStore::new();
    let q = QueueId::Evm { chain_id: 1 };
    store.enqueue_item(&q, item(1, 0, 600_000)).unwrap();
    store.enqueue_item(&q, item(2, 0, 600_000)).unwrap();
    store
        .update_item_state(
            &q,
            &vec![1; 64],
            QueueItemState::Failed {
                reason: String::from("dry run failed"),
            },
        )
        .unwrap();
    // the failed head rotates to the tail
    match drain_tick(&mut store, &q, 10) {
        DrainAction::Rotated => {}
        other => panic!("expected rotation, got {:?}", other),
    }
    // the pending item behind it is served next
    match drain_tick(&mut store, &q, 20) {
        DrainAction::Submit { key, payload } => {
            assert_eq!(key, vec![2; 64]);
            assert_eq!(payload, vec![2, 2]);
        }
        other => panic!("expected submission, got {:?}", other),
    }
}

#[test]
fn ttl_reap_removes_item_without_submission() {
    let mut store = MemStore::new();
    let q = QueueId::Substrate { chain_id: 5 };
    store.enqueue_item(&q, item(3, 1_000, 1_000)).unwrap();
    // the drainer restarts long after the TTL: the item is reaped unseen
    match drain_tick(&mut store, &q, 3_001) {
        DrainAction::Reaped => {}
        other => panic!("expected reap, got {:?}", other),
    }
    assert!(!store.has_item(&q, &vec![3; 64]));
    // the next round must not trip over the missing head
    match drain_tick(&mut store, &q, 3_002) {
        DrainAction::Sleep => {}
        other => panic!("expected sleep, got {:?}", other),
    }
}

#[test]
fn ttl_reap_mid_processing() {
    let mut store = MemStore::new();
    let q = QueueId::Evm { chain_id: 9 };
    store.enqueue_item(&q, item(4, 0, 1_000)).unwrap();
    match drain_tick(&mut store, &q, 10) {
        DrainAction::Submit { .. } => {}
        other => panic!("expected submission, got {:?}", other),
    }
    // the item expires while mid-flight; the next tick reaps it
    match drain_tick(&mut store, &q, 5_000) {
        DrainAction::Reaped => {}
        other => panic!("expected reap, got {:?}", other),
    }
}

#[test]
fn drainer_state_machine_to_finalized() {
    let mut store = MemStore::new();
    let q = QueueId::Substrate { chain_id: 5 };
    store.enqueue_item(&q, item(6, 0, 600_000)).unwrap();
    let key = vec![6; 64];
    match drain_tick(&mut store, &q, 1) {
        DrainAction::Submit { key: k, payload } => {
            assert_eq!(k, key);
            assert_eq!(payload, vec![6, 6]);
        }
        other => panic!("expected submission, got {:?}", other),
    }
    match store.get_item(&q, &key).unwrap().state() {
        QueueItemState::Processing { step, progress } => {
            assert_eq!(*step, ProcessingStep::Picked);
            assert_eq!(*progress, 0);
        }
        other => panic!("unexpected state {:?}", other),
    }
    record_dry_run(&mut store, &q, &key, true, String::new()).unwrap();
    record_submitted(&mut store, &q, &key).unwrap();
    for (status, progress) in [
        (TxStatus::Future, 50u8),
        (TxStatus::Ready, 60),
        (TxStatus::Broadcast, 70),
        (TxStatus::InBlock, 80),
    ] {
        record_status(&mut store, &q, &key, status).unwrap();
        match store.get_item(&q, &key).unwrap().state() {
            QueueItemState::Processing { progress: p, .. } => assert_eq!(*p, progress),
            other => panic!("unexpected state {:?}", other),
        }
    }
    // observation-only reports change nothing
    record_status(&mut store, &q, &key, TxStatus::Retracted).unwrap();
    match store.get_item(&q, &key).unwrap().state() {
        QueueItemState::Processing { progress, .. } => assert_eq!(*progress, 80),
        other => panic!("unexpected state {:?}", other),
    }
    // the terminal success report finalizes the item; it stays for the TTL
    record_status(&mut store, &q, &key, TxStatus::Finalized).unwrap();
    assert!(matches!(
        store.get_item(&q, &key).unwrap().state(),
        QueueItemState::Finalized
    ));
    assert!(store.has_item(&q, &key));
}

#[test]
fn dry_run_failure_rotates_with_reason() {
    let mut store = MemStore::new();
    let q = QueueId::Evm { chain_id: 2 };
    store.enqueue_item(&q, item(1, 0, 600_000)).unwrap();
    store.enqueue_item(&q, item(2, 0, 600_000)).unwrap();
    match drain_tick(&mut store, &q, 1) {
        DrainAction::Submit { .. } => {}
        other => panic!("expected submission, got {:?}", other),
    }
    record_dry_run(
        &mut store,
        &q,
        &vec![1; 64],
        false,
        String::from("out of gas"),
    )
    .unwrap();
    // the failed item moved to the tail; the other item is now the head
    let head = store.peek_item(&q).unwrap();
    assert_eq!(head.key, vec![2; 64]);
    match store.get_item(&q, &vec![1; 64]).unwrap().state() {
        QueueItemState::Failed { reason } => assert_eq!(reason, "out of gas"),
        other => panic!("unexpected state {:?}", other),
    }
    // a submission-phase failure behaves the same
    match drain_tick(&mut store, &q, 2) {
        DrainAction::Submit { .. } => {}
        other => panic!("expected submission, got {:?}", other),
    }
    fail_and_rotate(&mut store, &q, &vec![2; 64], String::from("nonce too low")).unwrap();
    assert_eq!(store.peek_item(&q).unwrap().key, vec![1; 64]);
}

#[test]
fn record_on_missing_item_errs() {
    let mut store = MemStore::new();
    let q = QueueId::Evm { chain_id: 2 };
    assert_eq!(
        record_submitted(&mut store, &q, &vec![9; 64]),
        Err(RelayerError::ItemNotFound)
    );
}

#[test]
fn substrate_tx_queue_rounds() {
    let mut store = MemStore::new();
    let drainer = SubstrateTxQueue::new(5, 10_000);
    assert_eq!(drainer.chain_id, 5);
    let q = drainer.queue_id();
    store.enqueue_item(&q, item(9, 0, 600_000)).unwrap();
    match drainer.tick(&mut store, 1) {
        DrainAction::Submit { key, .. } => assert_eq!(key, vec![9; 64]),
        other => panic!("expected submission, got {:?}", other),
    }
    let s = next_sleep_ms(drainer.max_sleep_interval);
    assert!((1_000..=10_000).contains(&s));
    let s2 = next_sleep_ms(10);
    assert_eq!(s2, 1_000);
}

#[test]
fn queues_are_independent() {
    let mut store = MemStore::new();
    let q1 = QueueId::Evm { chain_id: 1 };
    let q2 = QueueId::Evm { chain_id: 2 };
    let q3 = QueueId::Bridge { bridge: rid(9, 1) };
    store.enqueue_item(&q1, item(1, 0, 1000)).unwrap();
    store.enqueue_item(&q3, item(2, 0, 1000)).unwrap();
    assert!(store.peek_item(&q2).is_none());
    assert!(store.has_item(&q1, &vec![1; 64]));
    assert!(!store.has_item(&q2, &vec![1; 64]));
    assert!(store.has_item(&q3, &vec![2; 64]));
}

#[test]
fn proposal_store_round_trip() {
    let mut store = MemStore::new();
    store.insert_proposal(vec![1, 2], vec![0xaa]);
    store.insert_proposal(vec![1, 2], vec![0xbb]);
    store.insert_proposal(vec![3, 4], vec![0xcc]);
    // removing one hash leaves the other untouched
    assert_eq!(store.remove_proposal(&vec![1, 2]), Some(vec![0xbb]));
    assert_eq!(store.remove_proposal(&vec![1, 2]), None);
    assert_eq!(store.remove_proposal(&vec![3, 4]), Some(vec![0xcc]));
}

#[test]
fn bridge_executor_moves_commands_to_tx_queue() {
    let mut store = MemStore::new();
    let bridge = rid(0xbb, 2);
    let bq = QueueId::Bridge {
        bridge: rid(0xbb, 2),
    };
    let data = vec![0xd0u8; 108];
    let signature = vec![0xe0u8; 65];
    let payload = encode_bridge_command(&data, &signature);
    let cmd = QueueItem::new(
        bridge_command_key(&data, &signature),
        payload.clone(),
        0,
        600_000,
    );
    store.enqueue_item(&bq, cmd).unwrap();
    // the executor consumes the command and queues the execute transaction
    assert_eq!(
        execute_bridge_command(&mut store, &bridge, 2, 10, 600_000),
        Ok(true)
    );
    assert!(store.peek_item(&bq).is_none());
    let tq = QueueId::Evm { chain_id: 2 };
    let tx = store.peek_item(&tq).unwrap();
    assert_eq!(tx.payload, payload);
    assert_eq!(tx.key, bridge_command_key(&data, &signature));
    // an empty bridge queue yields nothing
    assert_eq!(
        execute_bridge_command(&mut store, &bridge, 2, 11, 600_000),
        Ok(false)
    );
    // a malformed command is dropped with a decode fault
    let bad = QueueItem::new(vec![1; 64], vec![0, 0], 0, 600_000);
    store.enqueue_item(&bq, bad).unwrap();
    assert_eq!(
        execute_bridge_command(&mut store, &bridge, 2, 12, 600_000),
        Err(RelayerError::Decode)
    );
    assert!(store.peek_item(&bq).is_none());
}

#[test]
fn fifo_order_is_kept() {
    let mut store = MemStore::new();
    let q = QueueId::Evm { chain_id: 1 };
    for tag in 1..=4u8 {
        store.enqueue_item(&q, item(tag, 0, 600_000)).unwrap();
    }
    for tag in 1..=4u8 {
        assert_eq!(store.dequeue_item(&q).unwrap().key, vec![tag; 64]);
    }
}
