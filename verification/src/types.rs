//! Blocks, their signatures and the identifiers that go with them.

use crate::collections::{MapKey, VecMap};
use crate::hash::{BlockHash, DeployHash, Digest, ProtoBlockHash};
use crate::keys::{PublicKey, Signature};
use crate::ordered::{OrdKey, OrderedMap};
use crate::timestamp::Timestamp;
use crate::uint::U512;
use std::rc::Rc;
use vstd::prelude::*;

verus! {

/// The number of an era.
#[derive(Clone, Copy, Debug, PartialEq, Eq, PartialOrd, Ord, Hash, Structural)]
pub struct EraId(pub u64);

impl MapKey for EraId {
    fn same(&self, other: &EraId) -> (b: bool) {
        self.0 == other.0
    }
}

impl OrdKey for EraId {
    open spec fn before(self, other: EraId) -> bool {
        self.0 < other.0
    }

    proof fn lemma_order(a: EraId, b: EraId, c: EraId) {
    }

    fn precedes(&self, other: &EraId) -> (r: bool) {
        self.0 < other.0
    }
}

/// A version of the protocol.
#[derive(Clone, Copy, Debug, PartialEq, Eq, PartialOrd, Ord, Hash, Structural)]
pub struct ProtocolVersion {
    pub major: u32,
    pub minor: u32,
    pub patch: u32,
}

/// What a block says about itself.
pub struct BlockHeader {
    /// The hash of the parent block.
    pub parent_hash: BlockHash,
    /// The root hash of the global state after the block was executed.
    pub state_root_hash: Digest,
    /// The hashes of the deploys that the block contains, without the transfers.
    pub deploy_hashes: Vec<DeployHash>,
    /// The hashes of the transfers that the block contains.
    pub transfer_hashes: Vec<DeployHash>,
    /// When the block was proposed.
    pub timestamp: Timestamp,
    /// The era to which the block belongs.
    pub era_id: EraId,
    /// The number of ancestors.
    pub height: u64,
    /// Whether the block ends its era.
    pub switch_block: bool,
}

/// A block of the linear chain.
pub struct Block {
    /// The hash identifying the block.
    pub hash: BlockHash,
    /// The header.
    pub header: Rc<BlockHeader>,
}

/// A block that was proposed, before its execution.
pub struct ProtoBlock {
    /// The hash identifying the proto block.
    pub hash: ProtoBlockHash,
    /// The hashes of the deploys, without the transfers.
    pub deploys: Vec<DeployHash>,
    /// The hashes of the transfers.
    pub transfers: Vec<DeployHash>,
    /// A random bit needed for initializing a future era.
    pub random_bit: bool,
}

/// What a block says about itself.
#[verifier::ext_equal]
pub ghost struct HeaderModel {
    pub parent_hash: BlockHash,
    pub state_root_hash: Digest,
    pub deploy_hashes: Seq<DeployHash>,
    pub transfer_hashes: Seq<DeployHash>,
    pub timestamp: Timestamp,
    pub era_id: EraId,
    pub height: u64,
    pub switch_block: bool,
}

impl View for BlockHeader {
    type V = HeaderModel;

    open spec fn view(&self) -> HeaderModel {
        HeaderModel {
            parent_hash: self.parent_hash,
            state_root_hash: self.state_root_hash,
            deploy_hashes: self.deploy_hashes@,
            transfer_hashes: self.transfer_hashes@,
            timestamp: self.timestamp,
            era_id: self.era_id,
            height: self.height,
            switch_block: self.switch_block,
        }
    }
}

/// A block of the linear chain.
#[verifier::ext_equal]
pub ghost struct BlockModel {
    pub hash: BlockHash,
    pub header: HeaderModel,
}

impl View for Block {
    type V = BlockModel;

    open spec fn view(&self) -> BlockModel {
        BlockModel { hash: self.hash, header: self.header@ }
    }
}

/// A block that was proposed.
#[verifier::ext_equal]
pub ghost struct ProtoBlockModel {
    pub hash: ProtoBlockHash,
    pub deploys: Seq<DeployHash>,
    pub transfers: Seq<DeployHash>,
    pub random_bit: bool,
}

impl View for ProtoBlock {
    type V = ProtoBlockModel;

    open spec fn view(&self) -> ProtoBlockModel {
        ProtoBlockModel {
            hash: self.hash,
            deploys: self.deploys@,
            transfers: self.transfers@,
            random_bit: self.random_bit,
        }
    }
}

/// Returns whether two lists hold the same hashes in the same order.
pub fn same_hashes(a: &Vec<Digest>, b: &Vec<Digest>) -> (r: bool)
    ensures
        r == (a@ == b@),
{
    if a.len() != b.len() {
        return false;
    }
    let mut i: usize = 0;
    while i < a.len()
        invariant
            i <= a@.len(),
            a@.len() == b@.len(),
            forall|j: int| 0 <= j < i ==> a@[j] == b@[j],
        decreases a@.len() - i,
    {
        if a[i] != b[i] {
            return false;
        }
        i += 1;
    }
    assert(a@ =~= b@);
    true
}

/// Appends a copy of all hashes of one list to another.
pub fn append_hashes(a: &mut Vec<Digest>, b: &Vec<Digest>)
    ensures
        final(a)@ == old(a)@ + b@,
{
    let ghost start = a@;
    let mut i: usize = 0;
    assert(a@ =~= start + b@.take(0));
    while i < b.len()
        invariant
            i <= b@.len(),
            a@ == start + b@.take(i as int),
        decreases b@.len() - i,
    {
        a.push(b[i]);
        assert(a@ =~= start + b@.take(i + 1));
        i += 1;
    }
    assert(b@.take(b@.len() as int) =~= b@);
}

/// A validator's signature for a block that it holds to be final.
#[derive(Clone, Copy, Debug)]
pub struct FinalitySignature {
    /// The hash of the signed block.
    pub block_hash: BlockHash,
    /// The era in which the block was created.
    pub era_id: EraId,
    /// The signature over the block hash.
    pub signature: Signature,
    /// The key of the signing validator.
    pub public_key: PublicKey,
}

impl PartialEq for FinalitySignature {
    fn eq(&self, other: &FinalitySignature) -> (r: bool) {
        self.block_hash == other.block_hash && self.era_id == other.era_id && self.signature
            == other.signature && self.public_key == other.public_key
    }
}

impl Eq for FinalitySignature {

}

impl vstd::std_specs::cmp::PartialEqSpecImpl for FinalitySignature {
    open spec fn obeys_eq_spec() -> bool {
        true
    }

    open spec fn eq_spec(&self, other: &FinalitySignature) -> bool {
        *self == *other
    }
}

/// What came of executing a deploy.
#[derive(Debug)]
pub enum ExecutionResult {
    /// The deploy was executed.
    Success {
        /// What the execution cost.
        cost: U512,
    },
    /// The execution failed.
    Failure {
        /// What the execution cost.
        cost: U512,
        /// What went wrong.
        error_message: String,
    },
}

/// The results of executing the deploys of a block.
pub type ExecutionResults = VecMap<DeployHash, ExecutionResult>;

/// The finality signatures for one block.
pub struct BlockSignatures {
    /// The hash of the signed block.
    pub block_hash: BlockHash,
    /// The era in which the block was created.
    pub era_id: EraId,
    /// The signatures, by signing validator.
    pub proofs: OrderedMap<PublicKey, Signature>,
}

/// The finality signatures for one block, with the proofs in the order of their creators.
#[verifier::ext_equal]
pub ghost struct SignaturesModel {
    pub block_hash: BlockHash,
    pub era_id: EraId,
    pub proofs: Seq<(PublicKey, Signature)>,
}

impl SignaturesModel {
    /// There is a signature by `key`.
    pub open spec fn has_proof(self, key: PublicKey) -> bool {
        crate::ordered::value_of(self.proofs, key) is Some
    }

    /// The signatures with one more.
    pub open spec fn with_proof(self, key: PublicKey, signature: Signature) -> SignaturesModel {
        SignaturesModel { proofs: crate::ordered::with_entry(self.proofs, key, signature), ..self }
    }
}

impl View for BlockSignatures {
    type V = SignaturesModel;

    open spec fn view(&self) -> SignaturesModel {
        SignaturesModel { block_hash: self.block_hash, era_id: self.era_id, proofs: self.proofs@ }
    }
}

/// A block and the signatures for it.
pub struct BlockWithMetadata {
    pub block: Block,
    pub finality_signatures: BlockSignatures,
}

/// `proofs` with all of `more` put in, one after the other.
pub open spec fn with_proofs(proofs: Seq<(PublicKey, Signature)>, more: Seq<(PublicKey, Signature)>) -> Seq<
    (PublicKey, Signature),
>
    decreases more.len(),
{
    if more.len() == 0 {
        proofs
    } else {
        crate::ordered::with_entry(
            with_proofs(proofs, more.drop_last()),
            more.last().0,
            more.last().1,
        )
    }
}

impl BlockSignatures {
    /// The proofs are in order.
    pub open spec fn wf(&self) -> bool {
        self.proofs.wf()
    }

    /// Creates an empty collection of signatures for a block.
    pub fn new(block_hash: BlockHash, era_id: EraId) -> (r: BlockSignatures)
        ensures
            r.wf(),
            r@ == (SignaturesModel { block_hash, era_id, proofs: Seq::empty() }),
    {
        BlockSignatures { block_hash, era_id, proofs: OrderedMap::new() }
    }

    /// Adds a signature and returns the one that it replaces.
    pub fn insert_proof(&mut self, public_key: PublicKey, signature: Signature) -> (r: Option<Signature>)
        requires
            old(self).wf(),
        ensures
            final(self).wf(),
            final(self)@ == old(self)@.with_proof(public_key, signature),
            r == crate::ordered::value_of(old(self)@.proofs, public_key),
    {
        self.proofs.insert(public_key, signature)
    }

    /// Returns whether there is a signature by the given validator.
    pub fn has_proof(&self, public_key: &PublicKey) -> (r: bool)
        requires
            self.wf(),
        ensures
            r == self@.has_proof(*public_key),
    {
        self.proofs.contains_key(public_key)
    }

    /// Adds all signatures of another collection.
    pub fn extend(&mut self, other: &BlockSignatures)
        requires
            old(self).wf(),
        ensures
            final(self).wf(),
            final(self)@ == (SignaturesModel {
                proofs: with_proofs(old(self)@.proofs, other@.proofs),
                ..old(self)@
            }),
    {
        let ghost start = self.proofs@;
        let mut i: usize = 0;
        assert(other.proofs@.take(0) =~= Seq::empty());
        while i < other.proofs.len()
            invariant
                i <= other.proofs@.len(),
                self.wf(),
                self.block_hash == old(self).block_hash,
                self.era_id == old(self).era_id,
                self.proofs@ == with_proofs(start, other.proofs@.take(i as int)),
            decreases other.proofs@.len() - i,
        {
            proof {
                let next = other.proofs@.take(i + 1);
                assert(next.drop_last() =~= other.proofs@.take(i as int));
                assert(next.last() == other.proofs@[i as int]);
            }
            let _ = self.proofs.insert(other.proofs.key_at(i), *other.proofs.value_at(i));
            i += 1;
        }
        assert(other.proofs@.take(other.proofs@.len() as int) =~= other.proofs@);
    }

    /// Returns a copy.
    pub fn duplicate(&self) -> (r: BlockSignatures)
        requires
            self.wf(),
        ensures
            r.wf(),
            r@ == self@,
    {
        let mut proofs: OrderedMap<PublicKey, Signature> = OrderedMap::new();
        let mut i: usize = 0;
        while i < self.proofs.len()
            invariant
                i <= self.proofs@.len(),
                self.wf(),
                proofs.wf(),
                proofs@ == self.proofs@.take(i as int),
            decreases self.proofs@.len() - i,
        {
            assert(i > 0 ==> self.proofs@[i - 1].0.before(self.proofs@[i as int].0));
            proofs.push(self.proofs.key_at(i), *self.proofs.value_at(i));
            assert(proofs@ =~= self.proofs@.take(i + 1));
            i += 1;
        }
        assert(proofs@ =~= self.proofs@);
        BlockSignatures { block_hash: self.block_hash, era_id: self.era_id, proofs }
    }
}

/// Every signature that is added, at whatever place in the list, is then there, the last one of each key;
/// what was there of other keys stays, and nothing else is there.
pub proof fn law_every_proof_is_added(
    proofs: Seq<(PublicKey, Signature)>,
    more: Seq<(PublicKey, Signature)>,
    i: int,
    key: PublicKey,
)
    requires
        crate::ordered::keys_increase(proofs),
        0 <= i < more.len(),
        forall|j: int| i < j < more.len() ==> (#[trigger] more[j]).0 != more[i].0,
    ensures
        crate::ordered::keys_increase(with_proofs(proofs, more)),
        crate::ordered::value_of(with_proofs(proofs, more), more[i].0) == Some(more[i].1),
        (forall|j: int| 0 <= j < more.len() ==> (#[trigger] more[j]).0 != key) ==> crate::ordered::value_of(
            with_proofs(proofs, more),
            key,
        ) == crate::ordered::value_of(proofs, key),
{
    lemma_proofs(proofs, more, key);
    lemma_proofs(proofs, more.take(i + 1), key);
    assert(more.take(i + 1).drop_last() =~= more.take(i));
    lemma_proofs(proofs, more.take(i), key);
    crate::ordered::lemma_with_entry(with_proofs(proofs, more.take(i)), more[i].0, more[i].1);
    lemma_later_proofs(proofs, more, i + 1, more[i].0);
}

proof fn lemma_proofs(proofs: Seq<(PublicKey, Signature)>, more: Seq<(PublicKey, Signature)>, key: PublicKey)
    requires
        crate::ordered::keys_increase(proofs),
    ensures
        crate::ordered::keys_increase(with_proofs(proofs, more)),
        (forall|j: int| 0 <= j < more.len() ==> (#[trigger] more[j]).0 != key) ==> crate::ordered::value_of(
            with_proofs(proofs, more),
            key,
        ) == crate::ordered::value_of(proofs, key),
    decreases more.len(),
{
    if more.len() > 0 {
        let front = more.drop_last();
        lemma_proofs(proofs, front, key);
        crate::ordered::lemma_with_entry(with_proofs(proofs, front), more.last().0, more.last().1);
        if forall|j: int| 0 <= j < more.len() ==> (#[trigger] more[j]).0 != key {
            assert forall|j: int| 0 <= j < front.len() implies (#[trigger] front[j]).0 != key by {
                assert(front[j] == more[j]);
            }
            assert(more[more.len() - 1].0 != key);
        }
    }
}

proof fn lemma_later_proofs(proofs: Seq<(PublicKey, Signature)>, more: Seq<(PublicKey, Signature)>, n: int, key: PublicKey)
    requires
        crate::ordered::keys_increase(proofs),
        0 <= n <= more.len(),
        forall|j: int| n <= j < more.len() ==> (#[trigger] more[j]).0 != key,
    ensures
        crate::ordered::value_of(with_proofs(proofs, more), key) == crate::ordered::value_of(with_proofs(proofs, more.take(n)), key),
    decreases more.len(),
{
    if n < more.len() {
        let front = more.drop_last();
        assert forall|j: int| n <= j < front.len() implies (#[trigger] front[j]).0 != key by {
            assert(front[j] == more[j]);
        }
        lemma_later_proofs(proofs, front, n, key);
        assert(front.take(n) =~= more.take(n));
        lemma_proofs(proofs, front, key);
        crate::ordered::lemma_with_entry(with_proofs(proofs, front), more.last().0, more.last().1);
        assert(more[more.len() - 1].0 != key);
    } else {
        assert(more.take(n) =~= more);
    }
}

} // verus!
