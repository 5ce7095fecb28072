use vstd::prelude::*;

verus! {

/// Identifier of a block: the leading eight bytes of its header digest, little-endian.
pub type BlockHash = u64;

/// A digest shortened to its leading eight bytes, little-endian.
pub type Digest = u64;

/// Number of an era.
pub type EraId = u64;

/// Identifier of a peer on the network.
pub type NodeId = u64;

/// A validator's public key.
pub type PublicKey = u64;

/// Identifier of a deploy.
pub type DeployHash = u64;

/// Milliseconds since the epoch.
pub type Timestamp = u64;

/// Height of a block in the linear chain.
pub type Height = u64;

/// Header of a block: everything that its hash commits to.
#[derive(Clone, Copy, Debug, PartialEq, Eq, Structural)]
pub struct BlockHeader {
    pub parent: BlockHash,
    pub height: Height,
    pub era_id: EraId,
    pub state_root: Digest,
    pub body_hash: Digest,
    pub timestamp: Timestamp,
    pub is_switch_block: bool,
}

/// Body of a block: the ordered hashes of its deploys.
#[derive(Clone, Debug)]
pub struct BlockBody {
    pub deploy_hashes: Vec<DeployHash>,
}

/// A block: its hash, header and body.
#[derive(Clone, Debug)]
pub struct Block {
    pub hash: BlockHash,
    pub header: BlockHeader,
    pub body: BlockBody,
}

impl Block {
    /// True when the body lists no deploy.
    pub fn is_empty(&self) -> (r: bool)
        ensures
            r == (self.body.deploy_hashes@.len() == 0),
    {
        self.body.deploy_hashes.len() == 0
    }
}

/// Per-block commitments to the approvals of each deploy, in the body's order. The merkle
/// proof that ties them to the state root is not carried or checked here: the builder checks
/// only the block hash and that there is one entry per deploy.
#[derive(Clone, Debug)]
pub struct ApprovalsHashes {
    pub block_hash: BlockHash,
    pub approvals_hashes: Vec<Digest>,
}

/// Identifies a deploy together with the approvals it was fetched with.
#[derive(Clone, Copy, Debug, PartialEq, Eq, Structural)]
pub struct DeployId {
    pub deploy_hash: DeployHash,
    pub approvals_hash: Digest,
}

impl DeployId {
    pub fn new(deploy_hash: DeployHash, approvals_hash: Digest) -> (r: Self)
        ensures
            r.deploy_hash == deploy_hash,
            r.approvals_hash == approvals_hash,
    {
        DeployId { deploy_hash, approvals_hash }
    }
}

/// The header fields of a deploy that decide its lifetime.
#[derive(Clone, Copy, Debug, PartialEq, Eq, Structural)]
pub struct DeployHeader {
    pub timestamp: Timestamp,
    pub ttl: u64,
}

impl DeployHeader {
    /// A deploy is expired at `now` when its timestamp plus its time to live lies before `now`.
    pub open spec fn is_expired_at(self, now: Timestamp) -> bool {
        self.timestamp + self.ttl < now
    }

    pub fn expired(&self, now: Timestamp) -> (r: bool)
        ensures
            r == self.is_expired_at(now),
    {
        (self.timestamp as u128) + (self.ttl as u128) < now as u128
    }
}

/// A deploy as the synchronizer sees it.
#[derive(Clone, Copy, Debug, PartialEq, Eq, Structural)]
pub struct Deploy {
    pub hash: DeployHash,
    pub header: DeployHeader,
    pub approvals_hash: Digest,
}

impl Deploy {
    pub open spec fn id_spec(self) -> DeployId {
        DeployId { deploy_hash: self.hash, approvals_hash: self.approvals_hash }
    }

    pub fn id(&self) -> (r: DeployId)
        ensures
            r == self.id_spec(),
    {
        DeployId { deploy_hash: self.hash, approvals_hash: self.approvals_hash }
    }
}

/// A validator's signature over a block hash and era. The signature bytes are not verified
/// cryptographically here: the builder checks the block, the era and the signer's membership
/// in the era's validators, and relies on the fetch layer for the cryptographic check.
#[derive(Clone, Copy, Debug, PartialEq, Eq, Structural)]
pub struct FinalitySignature {
    pub block_hash: BlockHash,
    pub era_id: EraId,
    pub public_key: PublicKey,
    pub signature: u64,
}

/// Identifies the finality signature of one validator on one block.
#[derive(Clone, Copy, Debug, PartialEq, Eq, Structural)]
pub struct FinalitySignatureId {
    pub block_hash: BlockHash,
    pub era_id: EraId,
    pub public_key: PublicKey,
}

/// A block in the form the execution engine takes it.
#[derive(Clone, Debug)]
pub struct FinalizedBlock {
    pub block_hash: BlockHash,
    pub height: Height,
    pub era_id: EraId,
    pub timestamp: Timestamp,
    pub deploy_hashes: Vec<DeployHash>,
}

impl FinalizedBlock {
    /// Same fields and same deploys.
    pub open spec fn same_as(self, o: FinalizedBlock) -> bool {
        &&& self.block_hash == o.block_hash
        &&& self.height == o.height
        &&& self.era_id == o.era_id
        &&& self.timestamp == o.timestamp
        &&& self.deploy_hashes@ == o.deploy_hashes@
    }

    /// The finalized form of a block: its hash, height, era, timestamp and deploys.
    pub fn from_block(block: &Block) -> (r: FinalizedBlock)
        ensures
            r.block_hash == block.hash,
            r.height == block.header.height,
            r.era_id == block.header.era_id,
            r.timestamp == block.header.timestamp,
            r.deploy_hashes@ == block.body.deploy_hashes@,
    {
        let mut deploy_hashes: Vec<DeployHash> = Vec::new();
        let mut i: usize = 0;
        while i < block.body.deploy_hashes.len()
            invariant
                i <= block.body.deploy_hashes@.len(),
                deploy_hashes@ == block.body.deploy_hashes@.subrange(0, i as int),
            decreases block.body.deploy_hashes@.len() - i,
        {
            deploy_hashes.push(block.body.deploy_hashes[i]);
            i = i + 1;
        }
        assert(deploy_hashes@ =~= block.body.deploy_hashes@);
        FinalizedBlock {
            block_hash: block.hash,
            height: block.header.height,
            era_id: block.header.era_id,
            timestamp: block.header.timestamp,
            deploy_hashes,
        }
    }

    /// A copy of the finalized block.
    pub fn duplicate(&self) -> (r: FinalizedBlock)
        ensures
            r.same_as(*self),
    {
        FinalizedBlock {
            block_hash: self.block_hash,
            height: self.height,
            era_id: self.era_id,
            timestamp: self.timestamp,
            deploy_hashes: self.deploy_hashes.clone(),
        }
    }

    pub fn height(&self) -> (r: Height)
        ensures
            r == self.height,
    {
        self.height
    }
}

/// Minimal information on a block.
#[derive(Clone, Copy, Debug, PartialEq, Eq, Structural)]
pub struct MinimalBlockInfo {
    pub hash: BlockHash,
    pub timestamp: Timestamp,
    pub era_id: EraId,
    pub height: Height,
}

impl MinimalBlockInfo {
    pub fn from_block(block: &Block) -> (r: Self)
        ensures
            r.hash == block.hash,
            r.timestamp == block.header.timestamp,
            r.era_id == block.header.era_id,
            r.height == block.header.height,
    {
        MinimalBlockInfo {
            hash: block.hash,
            timestamp: block.header.timestamp,
            era_id: block.header.era_id,
            height: block.header.height,
        }
    }
}

} // verus!
