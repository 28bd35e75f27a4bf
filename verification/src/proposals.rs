//! Resource identifiers, proposal headers and the anchor-update proposal,
//! with their fixed wire layout.
//!
//! A resource id is 32 bytes: a 26-byte target system followed by a 6-byte
//! typed chain id. A proposal header is 40 bytes: resource id, 4-byte
//! function signature, 4-byte big-endian nonce. An anchor update proposal is
//! 108 bytes: header, 6-byte source chain id, 4-byte big-endian leaf index,
//! 32-byte merkle root, 26-byte target system.

use vstd::prelude::*;

use crate::bytes::{
    bytes_equal, lemma_u32_be_round_trip, push_all, push_u32_be, read_u32_be, spec_u32_be,
    spec_u32_from_be,
};

verus! {

/// A chain family tag together with the 32-bit chain id inside that family.
#[derive(Clone, Copy, Debug, PartialEq, Eq, Structural)]
pub enum TypedChainId {
    /// A chain of no known family; carries no id.
    Unknown,
    Evm(u32),
    Substrate(u32),
    PolkadotParachain(u32),
    KusamaParachain(u32),
    RococoParachain(u32),
    Cosmos(u32),
    Solana(u32),
}

/// The family tag byte of a typed chain id.
pub open spec fn spec_chain_tag(c: TypedChainId) -> u8 {
    match c {
        TypedChainId::Unknown => 0,
        TypedChainId::Evm(_) => 1,
        TypedChainId::Substrate(_) => 2,
        TypedChainId::PolkadotParachain(_) => 3,
        TypedChainId::KusamaParachain(_) => 4,
        TypedChainId::RococoParachain(_) => 5,
        TypedChainId::Cosmos(_) => 6,
        TypedChainId::Solana(_) => 7,
    }
}

/// The 32-bit chain id a typed chain id carries; 0 for the unknown family.
pub open spec fn spec_underlying_chain_id(c: TypedChainId) -> u32 {
    match c {
        TypedChainId::Unknown => 0,
        TypedChainId::Evm(id) => id,
        TypedChainId::Substrate(id) => id,
        TypedChainId::PolkadotParachain(id) => id,
        TypedChainId::KusamaParachain(id) => id,
        TypedChainId::RococoParachain(id) => id,
        TypedChainId::Cosmos(id) => id,
        TypedChainId::Solana(id) => id,
    }
}

/// The typed chain id with the given family tag and chain id, if the tag is
/// known. The unknown family admits only id 0.
pub open spec fn spec_chain_from_tag(tag: u8, id: u32) -> Option<TypedChainId> {
    if tag == 0 {
        if id == 0 {
            Some(TypedChainId::Unknown)
        } else {
            None
        }
    } else if tag == 1 {
        Some(TypedChainId::Evm(id))
    } else if tag == 2 {
        Some(TypedChainId::Substrate(id))
    } else if tag == 3 {
        Some(TypedChainId::PolkadotParachain(id))
    } else if tag == 4 {
        Some(TypedChainId::KusamaParachain(id))
    } else if tag == 5 {
        Some(TypedChainId::RococoParachain(id))
    } else if tag == 6 {
        Some(TypedChainId::Cosmos(id))
    } else if tag == 7 {
        Some(TypedChainId::Solana(id))
    } else {
        None
    }
}

/// The 6-byte wire form of a typed chain id: a zero byte, the family tag,
/// then the chain id in big-endian order.
pub open spec fn spec_chain_bytes(c: TypedChainId) -> Seq<u8> {
    seq![0u8, spec_chain_tag(c)] + spec_u32_be(spec_underlying_chain_id(c))
}

/// Reads a typed chain id back from its 6-byte wire form.
pub open spec fn spec_decode_chain(b: Seq<u8>) -> Option<TypedChainId>
    recommends
        b.len() == 6,
{
    if b[0] != 0 {
        None
    } else {
        spec_chain_from_tag(b[1], spec_u32_from_be(b[2], b[3], b[4], b[5]))
    }
}

/// Decoding the wire form of a typed chain id yields it back.
pub proof fn lemma_chain_round_trip(c: TypedChainId)
    ensures
        spec_chain_bytes(c).len() == 6,
        spec_decode_chain(spec_chain_bytes(c)) == Some(c),
{
    lemma_u32_be_round_trip(spec_underlying_chain_id(c));
}

impl TypedChainId {
    /// The family tag byte.
    pub fn chain_tag(&self) -> (r: u8)
        ensures
            r == spec_chain_tag(*self),
    {
        match self {
            TypedChainId::Unknown => 0,
            TypedChainId::Evm(_) => 1,
            TypedChainId::Substrate(_) => 2,
            TypedChainId::PolkadotParachain(_) => 3,
            TypedChainId::KusamaParachain(_) => 4,
            TypedChainId::RococoParachain(_) => 5,
            TypedChainId::Cosmos(_) => 6,
            TypedChainId::Solana(_) => 7,
        }
    }

    /// The 32-bit chain id inside the family; 0 for the unknown family.
    pub fn underlying_chain_id(&self) -> (r: u32)
        ensures
            r == spec_underlying_chain_id(*self),
    {
        match self {
            TypedChainId::Unknown => 0,
            TypedChainId::Evm(id) => *id,
            TypedChainId::Substrate(id) => *id,
            TypedChainId::PolkadotParachain(id) => *id,
            TypedChainId::KusamaParachain(id) => *id,
            TypedChainId::RococoParachain(id) => *id,
            TypedChainId::Cosmos(id) => *id,
            TypedChainId::Solana(id) => *id,
        }
    }

    /// Appends the 6-byte wire form to `out`.
    pub fn push_bytes(&self, out: &mut Vec<u8>)
        ensures
            final(out)@ == old(out)@ + spec_chain_bytes(*self),
    {
        out.push(0);
        out.push(self.chain_tag());
        push_u32_be(out, self.underlying_chain_id());
        proof {
            assert(out@ =~= old(out)@ + spec_chain_bytes(*self));
        }
    }
}

/// Reads a typed chain id from the 6 bytes of `b` starting at `pos`.
pub fn decode_chain_at(b: &Vec<u8>, pos: usize) -> (r: Option<TypedChainId>)
    requires
        pos + 6 <= b@.len(),
    ensures
        r == spec_decode_chain(b@.subrange(pos as int, pos + 6)),
{
    let n = b.len();
    proof {
        let sub = b@.subrange(pos as int, pos + 6);
        assert(sub[0] == b@[pos as int]);
        assert(sub[1] == b@[pos + 1]);
        assert(sub[2] == b@[pos + 2]);
        assert(sub[3] == b@[pos + 3]);
        assert(sub[4] == b@[pos + 4]);
        assert(sub[5] == b@[pos + 5]);
    }
    if b[pos] != 0 {
        return Option::None;
    }
    let tag = b[pos + 1];
    let id = read_u32_be(b, pos + 2);
    if tag == 0 {
        if id == 0 {
            Option::Some(TypedChainId::Unknown)
        } else {
            Option::None
        }
    } else if tag == 1 {
        Option::Some(TypedChainId::Evm(id))
    } else if tag == 2 {
        Option::Some(TypedChainId::Substrate(id))
    } else if tag == 3 {
        Option::Some(TypedChainId::PolkadotParachain(id))
    } else if tag == 4 {
        Option::Some(TypedChainId::KusamaParachain(id))
    } else if tag == 5 {
        Option::Some(TypedChainId::RococoParachain(id))
    } else if tag == 6 {
        Option::Some(TypedChainId::Cosmos(id))
    } else if tag == 7 {
        Option::Some(TypedChainId::Solana(id))
    } else {
        Option::None
    }
}

/// The system a proposal targets on some chain: an EVM contract address or a
/// Substrate pallet and tree.
#[derive(Clone, Debug)]
pub enum TargetSystem {
    /// A 20-byte EVM contract address.
    ContractAddress(Vec<u8>),
    /// A Substrate pallet index and merkle-tree id.
    Substrate { pallet_index: u8, tree_id: u32 },
}

/// The mathematical shape of a target system.
pub enum TargetSystemView {
    ContractAddress { address: Seq<u8> },
    Substrate { pallet_index: u8, tree_id: u32 },
}

impl View for TargetSystem {
    type V = TargetSystemView;

    open spec fn view(&self) -> TargetSystemView {
        match self {
            TargetSystem::ContractAddress(a) => TargetSystemView::ContractAddress {
                address: a@,
            },
            TargetSystem::Substrate { pallet_index, tree_id } => TargetSystemView::Substrate {
                pallet_index: *pallet_index,
                tree_id: *tree_id,
            },
        }
    }
}

/// A target system is well formed when its address has its fixed width.
pub open spec fn spec_target_wf(t: TargetSystemView) -> bool {
    match t {
        TargetSystemView::ContractAddress { address } => address.len() == 20,
        TargetSystemView::Substrate { .. } => true,
    }
}

/// The 26-byte wire form of a target system: a contract address left-padded
/// with 6 zero bytes, or 21 zero bytes, the pallet index and the big-endian
/// tree id.
pub open spec fn spec_target_bytes(t: TargetSystemView) -> Seq<u8> {
    match t {
        TargetSystemView::ContractAddress { address } => Seq::new(6, |i: int| 0u8) + address,
        TargetSystemView::Substrate { pallet_index, tree_id } => Seq::new(21, |i: int| 0u8)
            + seq![pallet_index] + spec_u32_be(tree_id),
    }
}

/// Reads a target system back from its 26-byte wire form. The chain family
/// of `family` settles which of the two shapes the bytes hold.
pub open spec fn spec_decode_target(b: Seq<u8>, family: TypedChainId) -> Option<TargetSystemView>
    recommends
        b.len() == 26,
{
    if family is Evm {
        if b.subrange(0, 6) == Seq::new(6, |i: int| 0u8) {
            Some(TargetSystemView::ContractAddress { address: b.subrange(6, 26) })
        } else {
            None
        }
    } else if family is Substrate {
        if b.subrange(0, 21) == Seq::new(21, |i: int| 0u8) {
            Some(
                TargetSystemView::Substrate {
                    pallet_index: b[21],
                    tree_id: spec_u32_from_be(b[22], b[23], b[24], b[25]),
                },
            )
        } else {
            None
        }
    } else {
        None
    }
}

/// Decoding the wire form of a well-formed target system under its own chain
/// family yields it back.
pub proof fn lemma_target_round_trip(t: TargetSystemView, family: TypedChainId)
    requires
        spec_target_wf(t),
        (family is Evm) == (t is ContractAddress),
        (family is Substrate) == (t is Substrate),
    ensures
        spec_target_bytes(t).len() == 26,
        spec_decode_target(spec_target_bytes(t), family) == Some(t),
{
    let b = spec_target_bytes(t);
    match t {
        TargetSystemView::ContractAddress { address } => {
            assert(b.subrange(0, 6) =~= Seq::new(6, |i: int| 0u8));
            assert(b.subrange(6, 26) =~= address);
        },
        TargetSystemView::Substrate { pallet_index, tree_id } => {
            assert(b.subrange(0, 21) =~= Seq::new(21, |i: int| 0u8));
            assert(b[21] == pallet_index);
            lemma_u32_be_round_trip(tree_id);
            assert(b[22] == spec_u32_be(tree_id)[0]);
            assert(b[23] == spec_u32_be(tree_id)[1]);
            assert(b[24] == spec_u32_be(tree_id)[2]);
            assert(b[25] == spec_u32_be(tree_id)[3]);
        },
    }
}

impl TargetSystem {
    /// Builds the target system standing for a 20-byte contract address.
    pub fn new_contract_address(address: Vec<u8>) -> (r: TargetSystem)
        requires
            address@.len() == 20,
        ensures
            r@ == (TargetSystemView::ContractAddress { address: address@ }),
    {
        TargetSystem::ContractAddress(address)
    }

    /// Appends the 26-byte wire form to `out`.
    pub fn push_bytes(&self, out: &mut Vec<u8>)
        requires
            spec_target_wf(self@),
        ensures
            final(out)@ == old(out)@ + spec_target_bytes(self@),
    {
        match self {
            TargetSystem::ContractAddress(a) => {
                let mut i: usize = 0;
                while i < 6
                    invariant
                        i <= 6,
                        out@ == old(out)@ + Seq::new(i as nat, |j: int| 0u8),
                    decreases 6 - i,
                {
                    out.push(0);
                    proof {
                        assert(out@ =~= old(out)@ + Seq::new((i + 1) as nat, |j: int| 0u8));
                    }
                    i += 1;
                }
                let mut k: usize = 0;
                let n = a.len();
                while k < n
                    invariant
                        n == a@.len(),
                        k <= n,
                        out@ == old(out)@ + Seq::new(6, |j: int| 0u8) + a@.subrange(0, k as int),
                    decreases n - k,
                {
                    out.push(a[k]);
                    proof {
                        assert(out@ =~= old(out)@ + Seq::new(6, |j: int| 0u8) + a@.subrange(
                            0,
                            (k + 1) as int,
                        ));
                    }
                    k += 1;
                }
                proof {
                    assert(a@.subrange(0, a@.len() as int) =~= a@);
                    assert(out@ =~= old(out)@ + spec_target_bytes(self@));
                }
            },
            TargetSystem::Substrate { pallet_index, tree_id } => {
                let mut i: usize = 0;
                while i < 21
                    invariant
                        i <= 21,
                        out@ == old(out)@ + Seq::new(i as nat, |j: int| 0u8),
                    decreases 21 - i,
                {
                    out.push(0);
                    proof {
                        assert(out@ =~= old(out)@ + Seq::new((i + 1) as nat, |j: int| 0u8));
                    }
                    i += 1;
                }
                out.push(*pallet_index);
                push_u32_be(out, *tree_id);
                proof {
                    assert(out@ =~= old(out)@ + spec_target_bytes(self@));
                }
            },
        }
    }
}

/// Reads a target system from the 26 bytes of `b` starting at `pos`, under
/// the given chain family.
#[verifier::loop_isolation(false)]
pub fn decode_target_at(b: &Vec<u8>, pos: usize, family: &TypedChainId) -> (r: Option<
    TargetSystem,
>)
    requires
        pos + 26 <= b@.len(),
    ensures
        match r {
            Option::Some(t) => Some(t@) == spec_decode_target(
                b@.subrange(pos as int, pos + 26),
                *family,
            ) && spec_target_wf(t@),
            Option::None => spec_decode_target(b@.subrange(pos as int, pos + 26), *family)
                is None,
        },
{
    let n = b.len();
    let ghost sub = b@.subrange(pos as int, pos + 26);
    let is_evm = match family {
        TypedChainId::Evm(_) => true,
        _ => false,
    };
    let is_substrate = match family {
        TypedChainId::Substrate(_) => true,
        _ => false,
    };
    if is_evm {
        let mut i: usize = 0;
        while i < 6
            invariant
                n == b@.len(),
                pos + 26 <= n,
                i <= 6,
                forall|j: int| 0 <= j < i ==> #[trigger] b@[pos + j] == 0u8,
            decreases 6 - i,
        {
            if b[pos + i] != 0 {
                proof {
                    assert(sub.subrange(0, 6)[i as int] == b@[pos + i]);
                    assert(Seq::new(6, |k: int| 0u8)[i as int] == 0u8);
                    assert(sub.subrange(0, 6) != Seq::new(6, |k: int| 0u8));
                }
                return Option::None;
            }
            i += 1;
        }
        proof {
            assert forall|k: int| 0 <= k < 6 implies sub.subrange(0, 6)[k] == 0u8 by {
                assert(b@[pos + k] == 0u8);
            }
            assert(sub.subrange(0, 6) =~= Seq::new(6, |k: int| 0u8));
        }
        let mut address: Vec<u8> = Vec::new();
        let mut k: usize = 0;
        while k < 20
            invariant
                n == b@.len(),
                pos + 26 <= n,
                k <= 20,
                address@ == sub.subrange(6, 6 + k as int),
            decreases 20 - k,
        {
            address.push(b[pos + 6 + k]);
            proof {
                assert(address@ =~= sub.subrange(6, 6 + (k + 1)));
            }
            k += 1;
        }
        proof {
            assert(address@ =~= sub.subrange(6, 26));
        }
        Option::Some(TargetSystem::ContractAddress(address))
    } else if is_substrate {
        let mut i: usize = 0;
        while i < 21
            invariant
                n == b@.len(),
                pos + 26 <= n,
                i <= 21,
                forall|j: int| 0 <= j < i ==> #[trigger] b@[pos + j] == 0u8,
            decreases 21 - i,
        {
            if b[pos + i] != 0 {
                proof {
                    assert(sub.subrange(0, 21)[i as int] == b@[pos + i]);
                    assert(Seq::new(21, |k: int| 0u8)[i as int] == 0u8);
                    assert(sub.subrange(0, 21) != Seq::new(21, |k: int| 0u8));
                }
                return Option::None;
            }
            i += 1;
        }
        proof {
            assert forall|k: int| 0 <= k < 21 implies sub.subrange(0, 21)[k] == 0u8 by {
                assert(b@[pos + k] == 0u8);
            }
            assert(sub.subrange(0, 21) =~= Seq::new(21, |k: int| 0u8));
            assert(sub[21] == b@[pos + 21]);
            assert(sub[22] == b@[pos + 22]);
            assert(sub[23] == b@[pos + 23]);
            assert(sub[24] == b@[pos + 24]);
            assert(sub[25] == b@[pos + 25]);
        }
        let pallet_index = b[pos + 21];
        let tree_id = read_u32_be(b, pos + 22);
        Option::Some(TargetSystem::Substrate { pallet_index, tree_id })
    } else {
        Option::None
    }
}

/// True of two target systems holding the same shape and bytes.
pub fn target_system_eq(a: &TargetSystem, b: &TargetSystem) -> (r: bool)
    ensures
        r == (a@ == b@),
{
    match (a, b) {
        (TargetSystem::ContractAddress(x), TargetSystem::ContractAddress(y)) => bytes_equal(x, y),
        (
            TargetSystem::Substrate { pallet_index: pa, tree_id: ta },
            TargetSystem::Substrate { pallet_index: pb, tree_id: tb },
        ) => *pa == *pb && *ta == *tb,
        _ => false,
    }
}

/// The 32-byte global identifier of a target system on a typed chain. It is
/// the primary key of the leaf cache, the checkpoint map and the bridge
/// state.
#[derive(Clone, Debug)]
pub struct ResourceId {
    pub target_system: TargetSystem,
    pub typed_chain_id: TypedChainId,
}

/// The mathematical shape of a resource id.
pub struct ResourceIdView {
    pub target_system: TargetSystemView,
    pub typed_chain_id: TypedChainId,
}

impl View for ResourceId {
    type V = ResourceIdView;

    open spec fn view(&self) -> ResourceIdView {
        ResourceIdView { target_system: self.target_system@, typed_chain_id: self.typed_chain_id }
    }
}

/// A resource id is well formed when its address has its fixed width and its
/// target shape agrees with its chain family.
pub open spec fn spec_resource_wf(r: ResourceIdView) -> bool {
    &&& spec_target_wf(r.target_system)
    &&& (r.typed_chain_id is Evm) == (r.target_system is ContractAddress)
    &&& (r.typed_chain_id is Substrate) == (r.target_system is Substrate)
    &&& (r.typed_chain_id is Evm || r.typed_chain_id is Substrate)
}

/// The 32-byte wire form of a resource id: target system then typed chain
/// id.
pub open spec fn spec_resource_bytes(r: ResourceIdView) -> Seq<u8> {
    spec_target_bytes(r.target_system) + spec_chain_bytes(r.typed_chain_id)
}

/// Reads a resource id back from its 32-byte wire form.
pub open spec fn spec_decode_resource(b: Seq<u8>) -> Option<ResourceIdView>
    recommends
        b.len() == 32,
{
    match spec_decode_chain(b.subrange(26, 32)) {
        None => None,
        Some(c) => match spec_decode_target(b.subrange(0, 26), c) {
            None => None,
            Some(t) => Some(ResourceIdView { target_system: t, typed_chain_id: c }),
        },
    }
}

/// Decoding the wire form of a well-formed resource id yields it back.
pub proof fn lemma_resource_round_trip(r: ResourceIdView)
    requires
        spec_resource_wf(r),
    ensures
        spec_resource_bytes(r).len() == 32,
        spec_decode_resource(spec_resource_bytes(r)) == Some(r),
{
    let tb = spec_target_bytes(r.target_system);
    let cb = spec_chain_bytes(r.typed_chain_id);
    lemma_target_round_trip(r.target_system, r.typed_chain_id);
    lemma_chain_round_trip(r.typed_chain_id);
    assert((tb + cb).subrange(0, 26) =~= tb);
    assert((tb + cb).subrange(26, 32) =~= cb);
}

impl ResourceId {
    /// Builds the resource id of a target system on a typed chain.
    pub fn new(target_system: TargetSystem, typed_chain_id: TypedChainId) -> (r: ResourceId)
        ensures
            r@ == (ResourceIdView { target_system: target_system@, typed_chain_id }),
    {
        ResourceId { target_system, typed_chain_id }
    }

    /// The typed chain id part.
    pub fn typed_chain_id(&self) -> (r: TypedChainId)
        ensures
            r == self@.typed_chain_id,
    {
        self.typed_chain_id
    }

    /// Appends the 32-byte wire form to `out`.
    pub fn push_bytes(&self, out: &mut Vec<u8>)
        requires
            spec_target_wf(self@.target_system),
        ensures
            final(out)@ == old(out)@ + spec_resource_bytes(self@),
    {
        self.target_system.push_bytes(out);
        self.typed_chain_id.push_bytes(out);
        proof {
            assert(out@ =~= old(out)@ + spec_resource_bytes(self@));
        }
    }

    /// The 32-byte wire form as a fresh vector.
    pub fn to_bytes(&self) -> (r: Vec<u8>)
        requires
            spec_target_wf(self@.target_system),
        ensures
            r@ == spec_resource_bytes(self@),
    {
        let mut out: Vec<u8> = Vec::new();
        self.push_bytes(&mut out);
        out
    }
}

/// True of two resource ids naming the same target and chain.
pub fn resource_id_eq(a: &ResourceId, b: &ResourceId) -> (r: bool)
    ensures
        r == (a@ == b@),
{
    target_system_eq(&a.target_system, &b.target_system) && a.typed_chain_id == b.typed_chain_id
}

/// Reads a resource id from the 32 bytes of `b` starting at `pos`.
pub fn decode_resource_at(b: &Vec<u8>, pos: usize) -> (r: Option<ResourceId>)
    requires
        pos + 32 <= b@.len(),
    ensures
        match r {
            Option::Some(rid) => Some(rid@) == spec_decode_resource(
                b@.subrange(pos as int, pos + 32),
            ) && spec_target_wf(rid@.target_system),
            Option::None => spec_decode_resource(b@.subrange(pos as int, pos + 32)) is None,
        },
{
    let n = b.len();
    let ghost sub = b@.subrange(pos as int, pos + 32);
    proof {
        assert(sub.subrange(26, 32) =~= b@.subrange(pos + 26, pos + 32));
        assert(sub.subrange(0, 26) =~= b@.subrange(pos as int, pos + 26));
    }
    let chain = decode_chain_at(b, pos + 26);
    match chain {
        Option::Some(c) => {
            let target = decode_target_at(b, pos, &c);
            match target {
                Option::Some(t) => Option::Some(ResourceId { target_system: t, typed_chain_id: c }),
                Option::None => Option::None,
            }
        },
        Option::None => Option::None,
    }
}

/// A fresh target system equal to `t`.
pub fn clone_target_system(t: &TargetSystem) -> (r: TargetSystem)
    ensures
        r@ == t@,
{
    match t {
        TargetSystem::ContractAddress(a) => TargetSystem::ContractAddress(
            crate::bytes::copy_bytes(a),
        ),
        TargetSystem::Substrate { pallet_index, tree_id } => TargetSystem::Substrate {
            pallet_index: *pallet_index,
            tree_id: *tree_id,
        },
    }
}

/// A fresh resource id equal to `rid`.
pub fn clone_resource_id(rid: &ResourceId) -> (r: ResourceId)
    ensures
        r@ == rid@,
{
    ResourceId {
        target_system: clone_target_system(&rid.target_system),
        typed_chain_id: rid.typed_chain_id,
    }
}

/// The 40-byte proposal header: resource id, 4-byte function signature and
/// 4-byte big-endian nonce.
#[derive(Clone, Debug)]
pub struct ProposalHeader {
    pub resource_id: ResourceId,
    pub function_signature: Vec<u8>,
    pub nonce: u32,
}

/// The mathematical shape of a proposal header.
pub struct ProposalHeaderView {
    pub resource_id: ResourceIdView,
    pub function_signature: Seq<u8>,
    pub nonce: u32,
}

impl View for ProposalHeader {
    type V = ProposalHeaderView;

    open spec fn view(&self) -> ProposalHeaderView {
        ProposalHeaderView {
            resource_id: self.resource_id@,
            function_signature: self.function_signature@,
            nonce: self.nonce,
        }
    }
}

/// A header is well formed when its resource id is and its function
/// signature has its fixed width.
pub open spec fn spec_header_wf(h: ProposalHeaderView) -> bool {
    &&& spec_resource_wf(h.resource_id)
    &&& h.function_signature.len() == 4
}

/// The 40-byte wire form of a proposal header.
pub open spec fn spec_header_bytes(h: ProposalHeaderView) -> Seq<u8> {
    spec_resource_bytes(h.resource_id) + h.function_signature + spec_u32_be(h.nonce)
}

/// Reads a proposal header back from its 40-byte wire form.
pub open spec fn spec_decode_header(b: Seq<u8>) -> Option<ProposalHeaderView>
    recommends
        b.len() == 40,
{
    match spec_decode_resource(b.subrange(0, 32)) {
        None => None,
        Some(rid) => Some(
            ProposalHeaderView {
                resource_id: rid,
                function_signature: b.subrange(32, 36),
                nonce: spec_u32_from_be(b[36], b[37], b[38], b[39]),
            },
        ),
    }
}

/// Decoding the wire form of a well-formed proposal header yields it back.
pub proof fn lemma_header_round_trip(h: ProposalHeaderView)
    requires
        spec_header_wf(h),
    ensures
        spec_header_bytes(h).len() == 40,
        spec_decode_header(spec_header_bytes(h)) == Some(h),
{
    let b = spec_header_bytes(h);
    lemma_resource_round_trip(h.resource_id);
    lemma_u32_be_round_trip(h.nonce);
    assert(b.subrange(0, 32) =~= spec_resource_bytes(h.resource_id));
    assert(b.subrange(32, 36) =~= h.function_signature);
    assert(b[36] == spec_u32_be(h.nonce)[0]);
    assert(b[37] == spec_u32_be(h.nonce)[1]);
    assert(b[38] == spec_u32_be(h.nonce)[2]);
    assert(b[39] == spec_u32_be(h.nonce)[3]);
}

impl ProposalHeader {
    /// Builds a header for a resource id, function signature and nonce.
    pub fn new(resource_id: ResourceId, function_signature: Vec<u8>, nonce: u32) -> (r:
        ProposalHeader)
        requires
            function_signature@.len() == 4,
        ensures
            r@ == (ProposalHeaderView {
                resource_id: resource_id@,
                function_signature: function_signature@,
                nonce,
            }),
    {
        ProposalHeader { resource_id, function_signature, nonce }
    }

    /// Appends the 40-byte wire form to `out`.
    pub fn push_bytes(&self, out: &mut Vec<u8>)
        requires
            spec_header_wf(self@),
        ensures
            final(out)@ == old(out)@ + spec_header_bytes(self@),
    {
        self.resource_id.push_bytes(out);
        push_all(out, &self.function_signature);
        push_u32_be(out, self.nonce);
        proof {
            assert(out@ =~= old(out)@ + spec_header_bytes(self@));
        }
    }
}

/// Reads a proposal header from the 40 bytes of `b` starting at `pos`.
pub fn decode_header_at(b: &Vec<u8>, pos: usize) -> (r: Option<ProposalHeader>)
    requires
        pos + 40 <= b@.len(),
    ensures
        match r {
            Option::Some(h) => Some(h@) == spec_decode_header(b@.subrange(pos as int, pos + 40))
                && spec_target_wf(h@.resource_id.target_system) && h@.function_signature.len()
                == 4,
            Option::None => spec_decode_header(b@.subrange(pos as int, pos + 40)) is None,
        },
{
    let n = b.len();
    let ghost sub = b@.subrange(pos as int, pos + 40);
    proof {
        assert(sub.subrange(0, 32) =~= b@.subrange(pos as int, pos + 32));
        assert(sub[36] == b@[pos + 36]);
        assert(sub[37] == b@[pos + 37]);
        assert(sub[38] == b@[pos + 38]);
        assert(sub[39] == b@[pos + 39]);
    }
    let rid = match decode_resource_at(b, pos) {
        Option::Some(rid) => rid,
        Option::None => {
            return Option::None;
        },
    };
    let mut function_signature: Vec<u8> = Vec::new();
    function_signature.push(b[pos + 32]);
    function_signature.push(b[pos + 33]);
    function_signature.push(b[pos + 34]);
    function_signature.push(b[pos + 35]);
    proof {
        assert(function_signature@ =~= sub.subrange(32, 36));
    }
    let nonce = read_u32_be(b, pos + 36);
    Option::Some(ProposalHeader { resource_id: rid, function_signature, nonce })
}

/// The message asserting that a source anchor reached a merkle root at a
/// leaf index, addressed to one linked anchor.
#[derive(Clone, Debug)]
pub struct AnchorUpdateProposal {
    pub header: ProposalHeader,
    pub src_chain_id: TypedChainId,
    pub last_leaf_index: u32,
    pub merkle_root: Vec<u8>,
    pub target_system: TargetSystem,
}

/// The mathematical shape of an anchor update proposal.
pub struct AnchorUpdateProposalView {
    pub header: ProposalHeaderView,
    pub src_chain_id: TypedChainId,
    pub last_leaf_index: u32,
    pub merkle_root: Seq<u8>,
    pub target_system: TargetSystemView,
}

impl View for AnchorUpdateProposal {
    type V = AnchorUpdateProposalView;

    open spec fn view(&self) -> AnchorUpdateProposalView {
        AnchorUpdateProposalView {
            header: self.header@,
            src_chain_id: self.src_chain_id,
            last_leaf_index: self.last_leaf_index,
            merkle_root: self.merkle_root@,
            target_system: self.target_system@,
        }
    }
}

/// A proposal is well formed when its header is, its root has its fixed
/// width, and its trailing target system repeats the one in its header.
pub open spec fn spec_proposal_wf(p: AnchorUpdateProposalView) -> bool {
    &&& spec_header_wf(p.header)
    &&& p.merkle_root.len() == 32
    &&& p.target_system == p.header.resource_id.target_system
}

/// The 108-byte wire form of an anchor update proposal: header, source chain
/// id, big-endian leaf index, merkle root, target system.
#[verifier::opaque]
pub open spec fn spec_proposal_bytes(p: AnchorUpdateProposalView) -> Seq<u8> {
    spec_header_bytes(p.header) + spec_chain_bytes(p.src_chain_id) + spec_u32_be(
        p.last_leaf_index,
    ) + p.merkle_root + spec_target_bytes(p.target_system)
}

/// Reads an anchor update proposal back from its 108-byte wire form.
pub open spec fn spec_decode_proposal(b: Seq<u8>) -> Option<AnchorUpdateProposalView> {
    if b.len() != 108 {
        None
    } else {
        match spec_decode_header(b.subrange(0, 40)) {
            None => None,
            Some(h) => match spec_decode_chain(b.subrange(40, 46)) {
                None => None,
                Some(src) => match spec_decode_target(
                    b.subrange(82, 108),
                    h.resource_id.typed_chain_id,
                ) {
                    None => None,
                    Some(t) => Some(
                        AnchorUpdateProposalView {
                            header: h,
                            src_chain_id: src,
                            last_leaf_index: spec_u32_from_be(b[46], b[47], b[48], b[49]),
                            merkle_root: b.subrange(50, 82),
                            target_system: t,
                        },
                    ),
                },
            },
        }
    }
}

/// Deserializing the serialized form of a well-formed anchor update proposal
/// yields the proposal.
pub proof fn lemma_proposal_round_trip(p: AnchorUpdateProposalView)
    requires
        spec_proposal_wf(p),
    ensures
        spec_proposal_bytes(p).len() == 108,
        spec_decode_proposal(spec_proposal_bytes(p)) == Some(p),
{
    reveal(spec_proposal_bytes);
    let b = spec_proposal_bytes(p);
    lemma_header_round_trip(p.header);
    lemma_chain_round_trip(p.src_chain_id);
    lemma_u32_be_round_trip(p.last_leaf_index);
    lemma_target_round_trip(p.target_system, p.header.resource_id.typed_chain_id);
    assert(b.subrange(0, 40) =~= spec_header_bytes(p.header));
    assert(b.subrange(40, 46) =~= spec_chain_bytes(p.src_chain_id));
    assert(b[46] == spec_u32_be(p.last_leaf_index)[0]);
    assert(b[47] == spec_u32_be(p.last_leaf_index)[1]);
    assert(b[48] == spec_u32_be(p.last_leaf_index)[2]);
    assert(b[49] == spec_u32_be(p.last_leaf_index)[3]);
    assert(b.subrange(50, 82) =~= p.merkle_root);
    assert(b.subrange(82, 108) =~= spec_target_bytes(p.target_system));
}

impl AnchorUpdateProposal {
    /// Builds a proposal from its parts.
    pub fn new(
        header: ProposalHeader,
        src_chain_id: TypedChainId,
        last_leaf_index: u32,
        merkle_root: Vec<u8>,
        target_system: TargetSystem,
    ) -> (r: AnchorUpdateProposal)
        ensures
            r@ == (AnchorUpdateProposalView {
                header: header@,
                src_chain_id,
                last_leaf_index,
                merkle_root: merkle_root@,
                target_system: target_system@,
            }),
    {
        AnchorUpdateProposal { header, src_chain_id, last_leaf_index, merkle_root, target_system }
    }

    /// The header part.
    pub fn header(&self) -> (r: &ProposalHeader)
        ensures
            r@ == self@.header,
    {
        &self.header
    }

    /// The 108-byte wire form, used both for signing and for on-chain
    /// submission.
    pub fn to_bytes(&self) -> (r: Vec<u8>)
        requires
            spec_proposal_wf(self@),
        ensures
            r@ == spec_proposal_bytes(self@),
            r@.len() == 108,
    {
        let mut out: Vec<u8> = Vec::new();
        self.header.push_bytes(&mut out);
        self.src_chain_id.push_bytes(&mut out);
        push_u32_be(&mut out, self.last_leaf_index);
        push_all(&mut out, &self.merkle_root);
        self.target_system.push_bytes(&mut out);
        proof {
            reveal(spec_proposal_bytes);
            assert(out@ =~= spec_proposal_bytes(self@));
            lemma_proposal_round_trip(self@);
        }
        out
    }

    /// Reads a proposal back from its wire form; `None` on any malformed
    /// byte run.
    pub fn from_bytes(b: &Vec<u8>) -> (r: Option<AnchorUpdateProposal>)
        ensures
            match r {
                Option::Some(p) => Some(p@) == spec_decode_proposal(b@),
                Option::None => spec_decode_proposal(b@) is None,
            },
    {
        proof {
            reveal(spec_proposal_bytes);
        }
        let n = b.len();
        if n != 108 {
            return Option::None;
        }
        let ghost whole = b@;
        let header = match decode_header_at(b, 0) {
            Option::Some(h) => h,
            Option::None => {
                return Option::None;
            },
        };
        let src_chain_id = match decode_chain_at(b, 40) {
            Option::Some(c) => c,
            Option::None => {
                return Option::None;
            },
        };
        let last_leaf_index = read_u32_be(b, 46);
        let mut merkle_root: Vec<u8> = Vec::new();
        let mut i: usize = 0;
        while i < 32
            invariant
                b@.len() == 108,
                i <= 32,
                merkle_root@ == b@.subrange(50, 50 + i as int),
            decreases 32 - i,
        {
            merkle_root.push(b[50 + i]);
            proof {
                assert(merkle_root@ =~= b@.subrange(50, 50 + (i + 1)));
            }
            i += 1;
        }
        let target_system = match decode_target_at(b, 82, &header.resource_id.typed_chain_id) {
            Option::Some(t) => t,
            Option::None => {
                return Option::None;
            },
        };
        Option::Some(
            AnchorUpdateProposal {
                header,
                src_chain_id,
                last_leaf_index,
                merkle_root,
                target_system,
            },
        )
    }
}

} // verus!
