//! The signing pipeline: deterministic signatures, digest keys, bridge
//! commands and backend selection, held against the curve and hash crates
//! directly.

use ethers_core::types::H256;
use ethers_signers::LocalWallet;

use webb_relayer::api::{
    handle_leaves_cache_evm, handle_leaves_cache_substrate, handle_transaction_status_evm,
};
use webb_relayer::proposals::{
    AnchorUpdateProposal, ProposalHeader, ResourceId, TargetSystem, TypedChainId,
};
use webb_relayer::queue::{QueueId, QueueItem, QueueItemState};
use webb_relayer::signing::{
    bridge_command_key, decode_bridge_command, encode_bridge_command, make_proposal_signing_backend,
    payload_key, sign_proposal, BridgeCommand, DkgSigningRulesConfig, MockedProposalSigningBackend,
    MockedProposalSigningBackendConfig, ProposalSigningBackendConfig,
    ProposalSigningBackendSelector, SigningRulesBackend,
};
use webb_relayer::store::MemStore;

fn addr(last: u8) -> Vec<u8> {
    let mut a = vec![0u8; 20];
    a[19] = last;
    a
}

fn rid(last: u8, chain: u32) -> ResourceId {
    ResourceId::new(
        TargetSystem::new_contract_address(addr(last)),
        TypedChainId::Evm(chain),
    )
}

const GOVERNOR_KEY: [u8; 32] = [
    0x8f, 0x2a, 0x55, 0x94, 0x9c, 0xa5, 0x2c, 0x02, 0x63, 0x34, 0x6c, 0x4c, 0x52, 0x2b, 0x12,
    0x3c, 0x2a, 0x4c, 0x95, 0x35, 0x3a, 0x01, 0x66, 0x33, 0x26, 0x1c, 0x0c, 0x12, 0x96, 0x38,
    0x21, 0x35,
];

fn sample_proposal() -> AnchorUpdateProposal {
    let header = ProposalHeader::new(rid(0xbb, 2), vec![141, 9, 22, 157], 7);
    AnchorUpdateProposal::new(
        header,
        TypedChainId::Evm(1),
        7,
        vec![0x11u8; 32],
        TargetSystem::new_contract_address(addr(0xbb)),
    )
}

#[test]
fn deterministic_signing() {
    let key = GOVERNOR_KEY.to_vec();
    let p = sample_proposal();
    let s1 = sign_proposal(&key, &p).expect("signs");
    let s2 = sign_proposal(&key, &p).expect("signs");
    assert_eq!(s1, s2);
    assert_eq!(s1.len(), 65);
}

#[test]
fn signature_matches_wallet_over_keccak_digest() {
    // the library's signature must be the wallet's signature of the
    // keccak-256 digest of the proposal's wire form
    let key = GOVERNOR_KEY.to_vec();
    let p = sample_proposal();
    let s = sign_proposal(&key, &p).expect("signs");
    let wallet = LocalWallet::from_bytes(&GOVERNOR_KEY).expect("valid key");
    let digest = ethers_core::utils::keccak256(p.to_bytes());
    let expected = wallet.sign_hash(H256::from(digest)).expect("signs");
    assert_eq!(s, expected.to_vec());
}

#[test]
fn invalid_key_is_rejected() {
    // the all-zero scalar is no valid secp256k1 key
    let key = vec![0u8; 32];
    let p = sample_proposal();
    assert!(sign_proposal(&key, &p).is_none());
}

#[test]
fn payload_key_is_a_real_digest() {
    let payload = vec![1u8, 2, 3];
    let k1 = payload_key(&payload);
    assert_eq!(k1.len(), 64);
    // the key is no echo of the input, and equal inputs agree
    assert_ne!(k1[..3], payload[..]);
    assert_eq!(payload_key(&payload), k1);
    assert_ne!(payload_key(&vec![1u8, 2, 4]), k1);
    // and it is the keccak-512 digest of the payload
    let mut expected = [0u8; 64];
    let mut hasher = tiny_keccak::Keccak::v512();
    tiny_keccak::Hasher::update(&mut hasher, &payload);
    tiny_keccak::Hasher::finalize(hasher, &mut expected);
    assert_eq!(k1, expected.to_vec());
}

#[test]
fn bridge_command_round_trip() {
    let data = vec![0xd0u8; 108];
    let signature = vec![0xe0u8; 65];
    let payload = encode_bridge_command(&data, &signature);
    let BridgeCommand::ExecuteProposalWithSignature { data: d, signature: s } =
        decode_bridge_command(&payload).expect("decodes");
    assert_eq!(d, data);
    assert_eq!(s, signature);
    assert!(decode_bridge_command(&vec![0u8, 0, 0]).is_none());
    let key = bridge_command_key(&data, &signature);
    assert_eq!(key.len(), 64);
    assert_eq!(key, bridge_command_key(&data, &signature));
}

#[test]
fn mocked_backend_accepts_known_bridges_only() {
    let backend =
        MockedProposalSigningBackend::new(vec![rid(0xbb, 2)], GOVERNOR_KEY.to_vec());
    assert!(backend.can_handle_proposal(&sample_proposal()));
    let other = AnchorUpdateProposal::new(
        ProposalHeader::new(rid(0xdd, 9), vec![141, 9, 22, 157], 7),
        TypedChainId::Evm(1),
        7,
        vec![0x11u8; 32],
        TargetSystem::new_contract_address(addr(0xdd)),
    );
    assert!(!backend.can_handle_proposal(&other));
}

#[test]
fn mocked_backend_enqueues_signed_command() {
    let mut store = MemStore::new();
    let backend =
        MockedProposalSigningBackend::new(vec![rid(0xbb, 2)], GOVERNOR_KEY.to_vec());
    let p = sample_proposal();
    backend
        .handle_proposal(&mut store, &p, 1_000, 600_000)
        .unwrap();
    // a second handling of the same proposal coalesces on the key
    backend
        .handle_proposal(&mut store, &p, 2_000, 600_000)
        .unwrap();
    let q = QueueId::Bridge {
        bridge: rid(0xbb, 2),
    };
    let head = store.dequeue_item(&q).expect("one command queued");
    assert!(store.dequeue_item(&q).is_none());
    assert_eq!(head.created_at, 1_000);
    let BridgeCommand::ExecuteProposalWithSignature { data, signature } =
        decode_bridge_command(&head.payload).expect("decodes");
    assert_eq!(data, p.to_bytes());
    assert_eq!(signature, sign_proposal(&GOVERNOR_KEY.to_vec(), &p).unwrap());
    assert_eq!(head.key, bridge_command_key(&data, &signature));
}

#[test]
fn voting_backend_enqueues_vote_call_once() {
    let mut store = MemStore::new();
    let config = DkgSigningRulesConfig {
        address: addr(0x99),
        phase1_job_id: vec![0x42u8; 32],
    };
    let backend = SigningRulesBackend::new(&config, 7);
    assert!(backend.can_handle_proposal(&sample_proposal()));
    let p = sample_proposal();
    backend
        .handle_proposal(&mut store, &p, 1_000, 600_000)
        .unwrap();
    backend
        .handle_proposal(&mut store, &p, 2_000, 600_000)
        .unwrap();
    let q = QueueId::Evm { chain_id: 7 };
    let head = store.dequeue_item(&q).expect("one vote call queued");
    assert!(store.dequeue_item(&q).is_none());
    // the canonical vote call opens with the job id and the dummy details
    assert_eq!(&head.payload[..32], &[0x42u8; 32]);
    assert_eq!(&head.payload[32..36], &[0, 0, 0, 32]);
    assert_eq!(&head.payload[36..68], &[1u8; 32]);
    assert_eq!(&head.payload[68..], &p.to_bytes()[..]);
}

#[test]
fn backend_selection() {
    let bridges = vec![rid(0xbb, 2)];
    let off = make_proposal_signing_backend(false, None, bridges.clone(), 1);
    assert!(matches!(off, ProposalSigningBackendSelector::Disabled));
    let none = make_proposal_signing_backend(true, None, bridges.clone(), 1);
    assert!(matches!(none, ProposalSigningBackendSelector::Disabled));
    let dkg = make_proposal_signing_backend(
        true,
        Some(ProposalSigningBackendConfig::Dkg(DkgSigningRulesConfig {
            address: addr(0x99),
            phase1_job_id: vec![0x42u8; 32],
        })),
        bridges.clone(),
        7,
    );
    match dkg {
        ProposalSigningBackendSelector::Dkg(b) => {
            assert_eq!(b.src_chain_id, 7);
            assert_eq!(b.phase1_job_id, vec![0x42u8; 32]);
        }
        _ => panic!("expected the voting backend"),
    }
    let mocked = make_proposal_signing_backend(
        true,
        Some(ProposalSigningBackendConfig::Mocked(
            MockedProposalSigningBackendConfig {
                private_key: GOVERNOR_KEY.to_vec(),
            },
        )),
        bridges,
        7,
    );
    match mocked {
        ProposalSigningBackendSelector::Mocked(b) => {
            assert_eq!(b.private_key, GOVERNOR_KEY.to_vec());
            assert_eq!(b.signature_bridges.len(), 1);
        }
        _ => panic!("expected the local signer"),
    }
}

#[test]
fn leaves_cache_query_gate() {
    let mut store = MemStore::new();
    let r = rid(0xaa, 1);
    store
        .insert_leaves(&r, vec![(0, vec![0xc0; 32])])
        .unwrap();
    store.insert_last_deposit_block_number(&r, 42);
    let denied =
        handle_leaves_cache_evm(&store, false, true, true, true, &r, 0, u32::MAX).unwrap_err();
    assert_eq!(denied.status, 403);
    let denied =
        handle_leaves_cache_evm(&store, true, false, true, true, &r, 0, u32::MAX).unwrap_err();
    assert_eq!(denied.status, 400);
    let denied =
        handle_leaves_cache_evm(&store, true, true, true, false, &r, 0, u32::MAX).unwrap_err();
    assert_eq!(denied.status, 403);
    let ok = handle_leaves_cache_evm(&store, true, true, true, true, &r, 0, u32::MAX).unwrap();
    assert_eq!(ok.leaves, vec![vec![0xc0; 32]]);
    assert_eq!(ok.last_queried_block, 42);
}

#[test]
fn leaves_cache_range_query() {
    let mut store = MemStore::new();
    let r = rid(0xaa, 1);
    store
        .insert_leaves(
            &r,
            vec![
                (0, vec![0xc0; 32]),
                (1, vec![0xc1; 32]),
                (2, vec![0xc2; 32]),
                (3, vec![0xc3; 32]),
            ],
        )
        .unwrap();
    store.insert_last_deposit_block_number(&r, 7);
    // a middle slice
    let ok = handle_leaves_cache_evm(&store, true, true, true, true, &r, 1, 3).unwrap();
    assert_eq!(ok.leaves, vec![vec![0xc1; 32], vec![0xc2; 32]]);
    // the upper end clamps to the cache
    let ok = handle_leaves_cache_evm(&store, true, true, true, true, &r, 2, 100).unwrap();
    assert_eq!(ok.leaves, vec![vec![0xc2; 32], vec![0xc3; 32]]);
    // an inverted or out-of-cache range yields nothing
    let ok = handle_leaves_cache_evm(&store, true, true, true, true, &r, 9, 2).unwrap();
    assert!(ok.leaves.is_empty());
    // the substrate route slices the same way
    let ok = handle_leaves_cache_substrate(&store, true, &r, 0, 2).unwrap();
    assert_eq!(ok.leaves, vec![vec![0xc0; 32], vec![0xc1; 32]]);
    assert_eq!(ok.last_queried_block, 7);
    assert!(handle_leaves_cache_substrate(&store, false, &r, 0, 2).is_err());
}

#[test]
fn transaction_status_query() {
    let mut store = MemStore::new();
    let q = QueueId::Evm { chain_id: 3 };
    let it = QueueItem::new(vec![5; 64], vec![1, 2], 0, 1_000);
    store.enqueue_item(&q, it).unwrap();
    let found = handle_transaction_status_evm(&store, 3, &vec![5; 64]).expect("found");
    assert!(matches!(found.state(), QueueItemState::Pending));
    assert!(handle_transaction_status_evm(&store, 3, &vec![6; 64]).is_none());
    assert!(handle_transaction_status_evm(&store, 4, &vec![5; 64]).is_none());
}
