//! The watcher engine and the handlers: polling ranges, leaf recovery,
//! idempotent handling and cross-chain proposals.

use webb_relayer::handlers::{
    build_anchor_update_proposals, handle_encrypted_output_event_once, handle_leaves_event_once,
    handle_substrate_encrypted_output_event, handle_substrate_leaves_event,
    process_insertion_batch, OpenVAnchorDepositHandler, ProposalHandlerWatcher, VAnchorWatcher,
};
use webb_relayer::proposals::{resource_id_eq, AnchorUpdateProposal, ResourceId, TargetSystem, TypedChainId};
use webb_relayer::queue::QueueId;
use webb_relayer::signing::{
    decode_bridge_command, BridgeCommand, MockedProposalSigningBackend,
    ProposalSigningBackendSelector,
};
use webb_relayer::store::MemStore;
use webb_relayer::watcher::{next_block_range, EventsWatcherConfig, EvmEvent};

fn rid(last: u8, chain: u32) -> ResourceId {
    let mut a = vec![0u8; 20];
    a[19] = last;
    ResourceId::new(
        TargetSystem::new_contract_address(a),
        TypedChainId::Evm(chain),
    )
}

fn config(max_step: u64, confirmations: u64) -> EventsWatcherConfig {
    EventsWatcherConfig {
        enabled: true,
        polling_interval_ms: 1000,
        max_blocks_per_step: max_step,
        confirmations,
        enable_data_query: true,
    }
}

const GOVERNOR_KEY: [u8; 32] = [
    0x8f, 0x2a, 0x55, 0x94, 0x9c, 0xa5, 0x2c, 0x02, 0x63, 0x34, 0x6c, 0x4c, 0x52, 0x2b, 0x12,
    0x3c, 0x2a, 0x4c, 0x95, 0x35, 0x3a, 0x01, 0x66, 0x33, 0x26, 0x1c, 0x0c, 0x12, 0x96, 0x38,
    0x21, 0x35,
];

fn mocked_backend(bridges: Vec<ResourceId>) -> ProposalSigningBackendSelector {
    ProposalSigningBackendSelector::Mocked(MockedProposalSigningBackend::new(
        bridges,
        GOVERNOR_KEY.to_vec(),
    ))
}

fn drain_queue(store: &mut MemStore, q: &QueueId) -> Vec<Vec<u8>> {
    let mut payloads = Vec::new();
    while let Some(it) = store.dequeue_item(q) {
        payloads.push(it.payload);
    }
    payloads
}

#[test]
fn empty_chain_advances_checkpoint_toward_head() {
    // nothing beyond the checkpoint: sleep
    assert_eq!(next_block_range(100, 100, &config(10, 0)), None);
    assert_eq!(next_block_range(100, 104, &config(10, 5)), None);
    // confirmed blocks beyond the checkpoint: the range moves toward the head
    assert_eq!(next_block_range(100, 110, &config(50, 5)), Some((101, 105)));
    // and is capped by the step bound
    assert_eq!(next_block_range(100, 500, &config(10, 5)), Some((101, 110)));
    // a zero step bound never yields a range
    assert_eq!(next_block_range(100, 500, &config(0, 5)), None);
}

#[test]
fn leaf_cache_recovery() {
    // contract deployed at block 100; 3 insertions at block 110; fresh store
    let mut store = MemStore::new();
    let r = rid(0xaa, 1);
    let c0 = vec![0xc0u8; 32];
    let c1 = vec![0xc1u8; 32];
    let c2 = vec![0xc2u8; 32];
    let events = vec![(0u32, c0.clone()), (1, c1.clone()), (2, c2.clone())];
    let applied = process_insertion_batch(&mut store, &r, &events, 110);
    assert_eq!(applied, 3);
    assert_eq!(store.get_leaves(&r), vec![c0, c1, c2]);
    assert_eq!(store.get_last_deposit_block_number(&r), 110);
    assert_eq!(store.get_last_block_number(&r, 100), 110);
}

#[test]
fn empty_batch_still_advances_checkpoint() {
    let mut store = MemStore::new();
    let r = rid(0xaa, 1);
    let applied = process_insertion_batch(&mut store, &r, &Vec::new(), 120);
    assert_eq!(applied, 0);
    assert_eq!(store.get_last_block_number(&r, 1), 120);
    assert!(store.get_leaves(&r).is_empty());
}

#[test]
fn idempotent_leaf_handler() {
    // replaying one log three times inserts exactly one leaf
    let mut store = MemStore::new();
    let r = rid(0xaa, 1);
    let c0 = vec![0xc0u8; 32];
    assert_eq!(
        handle_leaves_event_once(&mut store, &r, 0, &c0, 110),
        Ok(true)
    );
    assert_eq!(
        handle_leaves_event_once(&mut store, &r, 0, &c0, 110),
        Ok(false)
    );
    assert_eq!(
        handle_leaves_event_once(&mut store, &r, 0, &c0, 110),
        Ok(false)
    );
    assert_eq!(store.get_leaves(&r), vec![c0]);
}

#[test]
fn idempotent_encrypted_output_handler() {
    let mut store = MemStore::new();
    let r = rid(0xaa, 1);
    let commitment = vec![0xc0u8; 32];
    let output = vec![1u8, 2, 3, 4, 5];
    assert_eq!(
        handle_encrypted_output_event_once(&mut store, &r, 0, &commitment, &output, 9),
        Ok(true)
    );
    assert_eq!(
        handle_encrypted_output_event_once(&mut store, &r, 0, &commitment, &output, 9),
        Ok(false)
    );
    assert_eq!(store.get_encrypted_output(&r), vec![output]);
    assert_eq!(store.get_last_deposit_block_number(&r), 9);
}

#[test]
fn cross_chain_proposal() {
    // chain A's anchor emits an insertion; linked anchors sit on B and C
    let mut store = MemStore::new();
    let src = rid(0xaa, 1);
    let anchor_b = rid(0xbb, 2);
    let anchor_c = rid(0xcc, 3);
    let linked = vec![
        rid(0xaa, 1), // the source itself is filtered out
        rid(0xbb, 2),
        rid(0xcc, 3),
    ];
    let backend = mocked_backend(vec![rid(0xbb, 2), rid(0xcc, 3)]);
    let watcher = VAnchorWatcher::new(backend);
    let root = vec![0x55u8; 32];
    let commitment = vec![0x66u8; 32];
    // leaf index 3 is odd, so proposals are built
    let processed = watcher
        .handle_event(&mut store, &src, 3, &commitment, &root, &linked, 1_000, 600_000)
        .unwrap();
    assert!(processed);
    // queue B holds one signed execute command whose proposal carries the
    // root and the leaf index
    let qb = QueueId::Bridge {
        bridge: rid(0xbb, 2),
    };
    let payloads = drain_queue(&mut store, &qb);
    assert_eq!(payloads.len(), 1);
    let BridgeCommand::ExecuteProposalWithSignature { data, signature } =
        decode_bridge_command(&payloads[0]).expect("command decodes");
    let p = AnchorUpdateProposal::from_bytes(&data).expect("proposal decodes");
    assert_eq!(p.merkle_root, root);
    assert_eq!(p.last_leaf_index, 3);
    assert_eq!(p.header.nonce, 3);
    assert_eq!(p.src_chain_id, TypedChainId::Evm(1));
    assert!(resource_id_eq(&p.header.resource_id, &anchor_b));
    assert_eq!(signature.len(), 65);
    // queue C holds its own command
    let qc = QueueId::Bridge { bridge: anchor_c };
    assert_eq!(drain_queue(&mut store, &qc).len(), 1);
    // the source anchor's queue holds nothing
    let q_src = QueueId::Bridge { bridge: src };
    assert!(store.peek_item(&q_src).is_none());
}

#[test]
fn even_leaf_index_yields_no_proposal() {
    let mut store = MemStore::new();
    let src = rid(0xaa, 1);
    let linked = vec![rid(0xbb, 2)];
    let watcher = VAnchorWatcher::new(mocked_backend(vec![rid(0xbb, 2)]));
    let processed = watcher
        .handle_event(
            &mut store,
            &src,
            2,
            &vec![0x66u8; 32],
            &vec![0x55u8; 32],
            &linked,
            1_000,
            600_000,
        )
        .unwrap();
    assert!(!processed);
    let qb = QueueId::Bridge {
        bridge: rid(0xbb, 2),
    };
    assert!(store.peek_item(&qb).is_none());
}

#[test]
fn replayed_insertion_enqueues_once() {
    let mut store = MemStore::new();
    let src = rid(0xaa, 1);
    let linked = vec![rid(0xbb, 2)];
    let watcher = VAnchorWatcher::new(mocked_backend(vec![rid(0xbb, 2)]));
    let root = vec![0x55u8; 32];
    let commitment = vec![0x66u8; 32];
    for _ in 0..3 {
        watcher
            .handle_event(&mut store, &src, 3, &commitment, &root, &linked, 1_000, 600_000)
            .unwrap();
    }
    let qb = QueueId::Bridge {
        bridge: rid(0xbb, 2),
    };
    assert_eq!(drain_queue(&mut store, &qb).len(), 1);
}

#[test]
fn open_anchor_deposit_handler_builds_proposals() {
    let mut store = MemStore::new();
    let src = rid(0xaa, 1);
    let linked = vec![rid(0xbb, 2)];
    let handler = OpenVAnchorDepositHandler::new(mocked_backend(vec![rid(0xbb, 2)]));
    assert!(handler.can_handle_events(&EvmEvent::NewCommitment {
        index: 0,
        commitment: vec![0u8; 32],
        encrypted_output: Vec::new(),
    }));
    assert!(!handler.can_handle_events(&EvmEvent::Insertion {
        leaf_index: 0,
        commitment: vec![0u8; 32],
    }));
    // no parity filter: an even index still yields a proposal
    let processed = handler
        .handle_event(
            &mut store,
            &src,
            2,
            &vec![0x66u8; 32],
            &vec![0x55u8; 32],
            &linked,
            1_000,
            600_000,
        )
        .unwrap();
    assert!(processed);
    let qb = QueueId::Bridge {
        bridge: rid(0xbb, 2),
    };
    assert_eq!(drain_queue(&mut store, &qb).len(), 1);
}

#[test]
fn proposal_signed_event_fans_out_to_every_bridge() {
    let mut store = MemStore::new();
    let watcher = ProposalHandlerWatcher::new(vec![rid(0x01, 1), rid(0x02, 2)]);
    let data = vec![0xd0u8; 40];
    let signature = vec![0xe0u8; 65];
    watcher
        .handle_event(&mut store, &data, &signature, 1_000, 600_000)
        .unwrap();
    for bridge in [rid(0x01, 1), rid(0x02, 2)] {
        let q = QueueId::Bridge { bridge };
        let payloads = drain_queue(&mut store, &q);
        assert_eq!(payloads.len(), 1);
        let BridgeCommand::ExecuteProposalWithSignature { data: d, signature: s } =
            decode_bridge_command(&payloads[0]).expect("command decodes");
        assert_eq!(d, data);
        assert_eq!(s, signature);
    }
}

#[test]
fn build_proposals_skips_source() {
    let src = rid(0xaa, 1);
    let linked = vec![rid(0xaa, 1), rid(0xbb, 2)];
    let ps = build_anchor_update_proposals(&src, &vec![0x11u8; 32], 5, &linked);
    assert_eq!(ps.len(), 1);
    assert!(resource_id_eq(&ps[0].header.resource_id, &rid(0xbb, 2)));
    assert_eq!(ps[0].header.function_signature, vec![141, 9, 22, 157]);
}

#[test]
fn substrate_leaves_batch() {
    let mut store = MemStore::new();
    let r = ResourceId::new(
        TargetSystem::Substrate {
            pallet_index: 44,
            tree_id: 9,
        },
        TypedChainId::Substrate(1080),
    );
    let leafs = vec![vec![0x01u8; 32], vec![0x02u8; 32]];
    // the chain's next free index is 2, so this batch starts at 0
    handle_substrate_leaves_event(&mut store, &r, 2, &leafs, 77).unwrap();
    assert_eq!(store.get_leaves(&r), leafs);
    assert_eq!(store.get_last_deposit_block_number(&r), 77);
    // a replayed batch no longer continues the sequence
    assert!(handle_substrate_leaves_event(&mut store, &r, 2, &leafs, 77).is_err());
}

#[test]
fn substrate_encrypted_output_pair() {
    let mut store = MemStore::new();
    let r = ResourceId::new(
        TargetSystem::Substrate {
            pallet_index: 44,
            tree_id: 9,
        },
        TypedChainId::Substrate(1080),
    );
    let out1 = vec![1u8, 2, 3];
    let out2 = vec![4u8, 5];
    handle_substrate_encrypted_output_event(&mut store, &r, 2, 2, &out1, &out2, 50).unwrap();
    assert_eq!(store.get_encrypted_output(&r), vec![out1, out2]);
}
