//! The proposal wire format: exact layout, round trips, malformed input.

use webb_relayer::proposals::{
    decode_resource_at, resource_id_eq, AnchorUpdateProposal, ProposalHeader, ResourceId,
    TargetSystem, TypedChainId,
};

fn addr(last: u8) -> Vec<u8> {
    let mut a = vec![0u8; 20];
    a[19] = last;
    a
}

fn evm_resource(last: u8, chain: u32) -> ResourceId {
    ResourceId::new(
        TargetSystem::new_contract_address(addr(last)),
        TypedChainId::Evm(chain),
    )
}

fn sample_proposal() -> AnchorUpdateProposal {
    let target = evm_resource(0xbb, 2);
    let header = ProposalHeader::new(
        ResourceId::new(
            TargetSystem::new_contract_address(addr(0xbb)),
            TypedChainId::Evm(2),
        ),
        vec![141, 9, 22, 157],
        7,
    );
    AnchorUpdateProposal::new(
        header,
        TypedChainId::Evm(1),
        7,
        vec![0x11u8; 32],
        target.target_system,
    )
}

#[test]
fn proposal_round_trip() {
    let p = sample_proposal();
    let bytes = p.to_bytes();
    assert_eq!(bytes.len(), 108);
    let q = AnchorUpdateProposal::from_bytes(&bytes).expect("decodes");
    assert_eq!(q.to_bytes(), bytes);
    assert_eq!(q.last_leaf_index, 7);
    assert_eq!(q.src_chain_id, TypedChainId::Evm(1));
    assert_eq!(q.merkle_root, vec![0x11u8; 32]);
    assert_eq!(q.header.nonce, 7);
    assert!(resource_id_eq(&q.header.resource_id, &evm_resource(0xbb, 2)));
}

#[test]
fn proposal_exact_layout() {
    let p = sample_proposal();
    let bytes = p.to_bytes();
    let mut expected: Vec<u8> = Vec::new();
    // header: resource id = 26-byte target (6 zeros + address) + 6-byte chain id
    expected.extend_from_slice(&[0u8; 6]);
    expected.extend_from_slice(&addr(0xbb));
    expected.extend_from_slice(&[0, 1, 0, 0, 0, 2]); // Evm family tag 1, chain 2
    expected.extend_from_slice(&[141, 9, 22, 157]); // function signature
    expected.extend_from_slice(&[0, 0, 0, 7]); // nonce
    // source chain id
    expected.extend_from_slice(&[0, 1, 0, 0, 0, 1]);
    // leaf index
    expected.extend_from_slice(&[0, 0, 0, 7]);
    // merkle root
    expected.extend_from_slice(&[0x11u8; 32]);
    // trailing target system
    expected.extend_from_slice(&[0u8; 6]);
    expected.extend_from_slice(&addr(0xbb));
    assert_eq!(bytes, expected);
}

#[test]
fn proposal_rejects_wrong_length() {
    let p = sample_proposal();
    let mut bytes = p.to_bytes();
    bytes.pop();
    assert!(AnchorUpdateProposal::from_bytes(&bytes).is_none());
    bytes.push(0);
    bytes.push(0);
    assert!(AnchorUpdateProposal::from_bytes(&bytes).is_none());
}

#[test]
fn proposal_rejects_bad_padding() {
    let p = sample_proposal();
    let mut bytes = p.to_bytes();
    // the first 6 bytes of an EVM target must be zero
    bytes[0] = 1;
    assert!(AnchorUpdateProposal::from_bytes(&bytes).is_none());
}

#[test]
fn substrate_proposal_round_trip() {
    let target = ResourceId::new(
        TargetSystem::Substrate {
            pallet_index: 44,
            tree_id: 9,
        },
        TypedChainId::Substrate(1080),
    );
    let header = ProposalHeader::new(
        ResourceId::new(
            TargetSystem::Substrate {
                pallet_index: 44,
                tree_id: 9,
            },
            TypedChainId::Substrate(1080),
        ),
        vec![1, 2, 3, 4],
        3,
    );
    let p = AnchorUpdateProposal::new(
        header,
        TypedChainId::Evm(5),
        3,
        vec![0xabu8; 32],
        target.target_system,
    );
    let bytes = p.to_bytes();
    let q = AnchorUpdateProposal::from_bytes(&bytes).expect("decodes");
    assert_eq!(q.to_bytes(), bytes);
    match q.header.resource_id.target_system {
        TargetSystem::Substrate {
            pallet_index,
            tree_id,
        } => {
            assert_eq!(pallet_index, 44);
            assert_eq!(tree_id, 9);
        }
        _ => panic!("wrong target shape"),
    }
}

#[test]
fn resource_id_wire_round_trip() {
    let rid = evm_resource(0x77, 42);
    let bytes = rid.to_bytes();
    assert_eq!(bytes.len(), 32);
    let back = decode_resource_at(&bytes, 0).expect("decodes");
    assert!(resource_id_eq(&back, &rid));
}
