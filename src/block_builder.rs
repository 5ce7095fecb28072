use vstd::prelude::*;

use crate::hashing::{body_hash, compute_body_hash, header_hash};
use crate::peer_list::{PeerList, PeerQuality};
use crate::requests::{BlockAccumulatorRequest, Effect, FetchKind, FetcherRequest, NetworkInfoRequest};
use crate::types::{
    ApprovalsHashes, Block, Deploy, BlockHash, BlockHeader, DeployId, Digest, FinalitySignature,
    FinalitySignatureId, FinalizedBlock, NodeId, PublicKey, Timestamp,
};
use crate::validator_matrix::{
    finality_level, is_strict, is_weak, lemma_signed_le_total, lemma_signed_weight_push, signature_weight,
    weight_of, EraValidatorWeights, ValidatorWeight,
    SignatureWeight, ValidatorMatrix,
};

verus! {

/// How far the acquisition of one block has come.
#[derive(Clone, Copy, Debug, PartialEq, Eq, Structural)]
pub enum BlockAcquisitionState {
    HaveBlockHash,
    HaveBlockHeader,
    HaveWeakFinalitySignatures,
    HaveBlock,
    HaveApprovalsHashes,
    HaveAllDeploys,
    HaveStrictFinalitySignatures,
    HaveFinalizedBlock,
    Executing,
    HaveGlobalState,
    HaveExecutionResults,
    Synced,
    Failed,
}

/// Position of a state along the acquisition; a builder's state never moves back.
pub open spec fn rank(s: BlockAcquisitionState) -> nat {
    match s {
        BlockAcquisitionState::HaveBlockHash => 0,
        BlockAcquisitionState::HaveBlockHeader => 1,
        BlockAcquisitionState::HaveWeakFinalitySignatures => 2,
        BlockAcquisitionState::HaveBlock => 3,
        BlockAcquisitionState::HaveApprovalsHashes => 4,
        BlockAcquisitionState::HaveAllDeploys => 5,
        BlockAcquisitionState::HaveStrictFinalitySignatures => 6,
        BlockAcquisitionState::HaveFinalizedBlock => 7,
        BlockAcquisitionState::HaveGlobalState => 7,
        BlockAcquisitionState::Executing => 8,
        BlockAcquisitionState::HaveExecutionResults => 8,
        BlockAcquisitionState::Synced => 9,
        BlockAcquisitionState::Failed => 10,
    }
}

/// Suppresses new requests while earlier ones may still be answered.
#[derive(Clone, Copy, Debug, PartialEq, Eq, Structural)]
pub enum Latch {
    Unlatched,
    Latched { since: Timestamp, ttl: u64 },
}

impl Latch {
    pub open spec fn holds_at(self, now: Timestamp) -> bool {
        match self {
            Latch::Unlatched => false,
            Latch::Latched { since, ttl } => now < since + ttl,
        }
    }

    pub fn is_latched(&self, now: Timestamp) -> (r: bool)
        ensures
            r == self.holds_at(now),
    {
        match self {
            Latch::Unlatched => false,
            Latch::Latched { since, ttl } => (now as u128) < (*since as u128) + (*ttl as u128),
        }
    }
}

/// Why a builder refused an item.
#[derive(Clone, Copy, Debug, PartialEq, Eq, Structural)]
pub enum BuilderError {
    /// The item does not fit the builder's current state.
    UnexpectedItem,
    /// The header does not hash to the block hash.
    InvalidHeader,
    /// The block does not match the header, or its body does not match the body hash.
    InvalidBlock,
    /// The approvals hashes do not belong to the block or do not match its deploys.
    InvalidApprovalsHashes,
    /// The deploy's id is not among those that the approvals hashes name.
    InvalidDeploy,
    /// The signature is for another block or era, or from a key outside the era's validators.
    InvalidSignature,
    /// The finalized block or global state belongs to another block.
    InvalidResult,
}

pub open spec fn sig_keys(s: Seq<FinalitySignature>) -> Seq<PublicKey> {
    s.map_values(|f: FinalitySignature| f.public_key)
}

/// After `sender` delivered something: its quality in `after` is `q`, other peers are kept.
pub open spec fn peer_outcome(
    after: PeerList,
    before: PeerList,
    sender: Option<NodeId>,
    q: PeerQuality,
) -> bool {
    match sender {
        Some(p) => {
            &&& after.wf()
            &&& forall|r: NodeId, x: PeerQuality|
                after.has_with(r, x) <==> if r == p {
                    x == q
                } else {
                    before.has_with(r, x)
                }
            &&& forall|r: NodeId| after.has(r) <==> (before.has(r) || r == p)
        },
        None => after == before,
    }
}

/// What the global-state synchronizer reports when it has the block's state.
#[derive(Clone, Debug)]
pub struct GlobalStateSynced {
    pub state_root_hash: Digest,
    /// Peers that were asked and did not have the data.
    pub unreliable_peers: Vec<NodeId>,
}

/// Why the global-state synchronizer gave up.
#[derive(Clone, Debug)]
pub enum GlobalStateSyncError {
    /// The root was not found on any of these peers.
    TrieAccumulator(Vec<NodeId>),
}

/// The fetch of `kind` for `id` addressed to `peer`; for kinds whose id is a block hash.
pub open spec fn fetch_of(kind: FetchKind, id: BlockHash, peer: NodeId) -> Effect {
    match kind {
        FetchKind::BlockHeader => Effect::BlockHeaderFetch(FetcherRequest::Fetch { id, peer }),
        FetchKind::SyncLeap => Effect::SyncLeapFetch(FetcherRequest::Fetch { id, peer }),
        FetchKind::Block => Effect::BlockFetch(FetcherRequest::Fetch { id, peer }),
        FetchKind::ApprovalsHashes => Effect::ApprovalsHashesFetch(FetcherRequest::Fetch { id, peer }),
        _ => Effect::ExecutionResultsFetch(FetcherRequest::Fetch { id, peer }),
    }
}

/// One fetch of `kind` for `id` to each of `peers`, in order.
pub open spec fn one_per_peer(r: Seq<Effect>, peers: Seq<NodeId>, kind: FetchKind, id: BlockHash) -> bool {
    &&& r.len() == peers.len()
    &&& forall|i: int| 0 <= i < r.len() ==> r[i] == fetch_of(kind, id, peers[i])
}

/// The keys of `vals` that are not in `signed`, in order.
pub open spec fn unsigned_keys(vals: Seq<crate::validator_matrix::ValidatorWeight>, signed: Seq<PublicKey>) -> Seq<PublicKey>
    decreases vals.len(),
{
    if vals.len() == 0 {
        Seq::empty()
    } else if signed.contains(vals.last().public_key) {
        unsigned_keys(vals.drop_last(), signed)
    } else {
        unsigned_keys(vals.drop_last(), signed).push(vals.last().public_key)
    }
}

pub open spec fn min_nat(a: nat, b: nat) -> nat {
    if a < b {
        a
    } else {
        b
    }
}

/// The per-block coordinator: one state machine with its peers, signatures and items.
#[derive(Clone, Debug)]
pub struct BlockBuilder {
    pub block_hash: BlockHash,
    /// Historical sync: global state and execution results are fetched too.
    pub should_fetch_execution_state: bool,
    pub acquisition_state: BlockAcquisitionState,
    pub peer_list: PeerList,
    pub signatures: Vec<FinalitySignature>,
    pub header: Option<BlockHeader>,
    pub block: Option<Block>,
    pub approvals_hashes: Option<ApprovalsHashes>,
    pub deploys_have: Vec<DeployId>,
    pub validators: Option<EraValidatorWeights>,
    pub latch: Latch,
    pub finalized_block: Option<FinalizedBlock>,
    pub max_simultaneous_peers: usize,
    pub latch_ttl: u64,
}

/// A finality signature counts once per validator, and only for a validator of the header's
/// era: in every well-formed builder the signing keys are distinct era validators, and the
/// signatures are for this block and era.
pub proof fn lemma_signatures_counted_once(b: BlockBuilder)
    requires
        b.wf(),
    ensures
        sig_keys(b.signatures@).no_duplicates(),
        b.signatures@.len() > 0 ==> b.validators is Some,
        forall|i: int|
            0 <= i < b.signatures@.len() ==> b.validators.unwrap().has_validator(
                (#[trigger] b.signatures@[i]).public_key,
            ) && b.signatures@[i].block_hash == b.block_hash && b.signatures@[i].era_id
                == b.header.unwrap().era_id,
{
    let k = sig_keys(b.signatures@);
    assert forall|i: int, j: int| 0 <= i < k.len() && 0 <= j < k.len() && i != j implies k[i] != k[j] by {
        assert(k[i] == b.signatures@[i].public_key);
        assert(k[j] == b.signatures@[j].public_key);
    }
    assert(b.sigs_wf());
    assert(b.items_wf());
    if b.signatures@.len() > 0 {
        assert(b.signatures@[0].block_hash == b.block_hash);
    }
}

/// A finality signature adds its validator's weight to the signed weight once: registering
/// it adds exactly that weight where it is accepted from a validator that had not signed, and
/// nothing otherwise, a repeated signature included.
pub proof fn lemma_signature_weight_counted_once(
    old: BlockBuilder,
    new: BlockBuilder,
    sig: FinalitySignature,
    sender: Option<NodeId>,
    r: Result<(), BuilderError>,
)
    requires
        old.wf(),
        old.validators is Some,
        BlockBuilder::signature_registered(old, new, sig, sender, r),
    ensures
        new.validators == old.validators,
        new.signed_weight_spec() == old.signed_weight_spec() + if old.acquisition_state
            != BlockAcquisitionState::Failed && old.acceptable_signature(sig) && !sig_keys(
            old.signatures@,
        ).contains(sig.public_key) {
            weight_of(old.validators.unwrap().validators@, sig.public_key)
        } else {
            0
        },
{
    let vals = old.validators.unwrap().validators@;
    if old.acquisition_state != BlockAcquisitionState::Failed && old.acceptable_signature(sig)
        && !sig_keys(old.signatures@).contains(sig.public_key) {
        assert(sig_keys(new.signatures@) =~= sig_keys(old.signatures@).push(sig.public_key));
        lemma_signed_weight_push(vals, sig_keys(old.signatures@), sig.public_key);
    } else {
        assert(new.signatures == old.signatures);
    }
}

proof fn lemma_unsigned_keys(vals: Seq<ValidatorWeight>, signed: Seq<PublicKey>, k: PublicKey)
    requires
        unsigned_keys(vals, signed).contains(k),
    ensures
        !signed.contains(k),
        exists|i: int| 0 <= i < vals.len() && vals[i].public_key == k,
    decreases vals.len(),
{
    let t = vals.drop_last();
    let u = unsigned_keys(t, signed);
    if u.contains(k) {
        lemma_unsigned_keys(t, signed, k);
        let i = choose|i: int| 0 <= i < t.len() && t[i].public_key == k;
        assert(vals[i] == t[i]);
    } else {
        assert(unsigned_keys(vals, signed) == u.push(vals.last().public_key));
        let q = choose|q: int| 0 <= q < u.push(vals.last().public_key).len() && u.push(vals.last().public_key)[q] == k;
        if q < u.len() {
            assert(u[q] == k);
        }
        assert(vals[vals.len() - 1].public_key == k);
    }
}

/// While weak finality is short, with enough peers to sample from, a builder that is not
/// latched asks for min(unsigned validators, max peers) signatures, each from a different
/// peer and for a validator of the era that has not signed.
pub proof fn lemma_signature_requests(b: BlockBuilder, peers: Seq<NodeId>, r: Seq<Effect>)
    requires
        b.acquisition_state == BlockAcquisitionState::HaveBlockHeader,
        b.validators is Some,
        b.peer_list.sample_pool().len() >= b.max_simultaneous_peers,
        b.max_simultaneous_peers > 0,
        b.valid_sample(peers),
        b.planned(peers, r),
    ensures
        r.len() == min_nat(b.max_simultaneous_peers as nat, b.unsigned().len()),
        forall|i: int|
            0 <= i < r.len() ==> match #[trigger] r[i] {
                Effect::FinalitySignatureFetch(FetcherRequest::Fetch { id, peer }) => {
                    &&& id.block_hash == b.block_hash
                    &&& id.era_id == b.validators.unwrap().era_id
                    &&& !sig_keys(b.signatures@).contains(id.public_key)
                    &&& b.validators.unwrap().has_validator(id.public_key)
                    &&& b.peer_list.sample_pool().contains(peer)
                },
                _ => false,
            },
{
    assert(peers.len() == b.max_simultaneous_peers);
    assert forall|i: int| 0 <= i < r.len() implies match #[trigger] r[i] {
        Effect::FinalitySignatureFetch(FetcherRequest::Fetch { id, peer }) => {
            &&& id.block_hash == b.block_hash
            &&& id.era_id == b.validators.unwrap().era_id
            &&& !sig_keys(b.signatures@).contains(id.public_key)
            &&& b.validators.unwrap().has_validator(id.public_key)
            &&& b.peer_list.sample_pool().contains(peer)
        },
        _ => false,
    } by {
        let k = b.unsigned()[i];
        assert(b.unsigned().contains(k));
        lemma_unsigned_keys(b.validators.unwrap().validators@, sig_keys(b.signatures@), k);
        assert(peers.contains(peers[i]));
    }
}

/// A deploy is held by a builder only if its id, deploy hash and approvals hash together,
/// matches an entry of the approvals hashes at the same position as the deploy in the body.
pub proof fn lemma_deploys_match_approvals(b: BlockBuilder)
    requires
        b.wf(),
    ensures
        forall|d: DeployId|
            #[trigger] b.deploys_have@.contains(d) ==> b.approvals_hashes is Some && exists|i: int|
                0 <= i < b.deploy_count() && b.block.unwrap().body.deploy_hashes@[i]
                    == d.deploy_hash && b.approvals_hashes.unwrap().approvals_hashes@[i]
                    == d.approvals_hash,
{
    assert forall|d: DeployId| #[trigger] b.deploys_have@.contains(d) implies b.approvals_hashes is Some && exists|i: int|
        0 <= i < b.deploy_count() && b.block.unwrap().body.deploy_hashes@[i] == d.deploy_hash
            && b.approvals_hashes.unwrap().approvals_hashes@[i] == d.approvals_hash by {
        let j = choose|j: int| 0 <= j < b.deploys_have@.len() && b.deploys_have@[j] == d;
        assert(b.expects_deploy(b.deploys_have@[j]));
        let i = choose|i: int| 0 <= i < b.deploy_count() && b.expected_id(i) == d;
        assert(b.block.unwrap().body.deploy_hashes@[i] == d.deploy_hash);
    }
}

impl BlockBuilder {
    pub open spec fn state_rank(self) -> nat {
        rank(self.acquisition_state)
    }

    pub open spec fn signed_weight_spec(self) -> nat {
        self.validators.unwrap().signed(sig_keys(self.signatures@))
    }

    pub open spec fn total_weight_spec(self) -> nat {
        self.validators.unwrap().total()
    }

    pub open spec fn weak(self) -> bool {
        self.validators.is_some() && is_weak(self.signed_weight_spec(), self.total_weight_spec())
    }

    pub open spec fn strict(self) -> bool {
        self.validators.is_some() && is_strict(self.signed_weight_spec(), self.total_weight_spec())
    }

    pub open spec fn deploy_count(self) -> nat {
        self.block.unwrap().body.deploy_hashes@.len()
    }

    /// Result of `register_era_validator_weights`: where the builder has a header but no
    /// weights yet, and is not failed, it takes the matrix's weights for the header's era, if
    /// there are any.
    pub open spec fn era_weights_registered(
        old: BlockBuilder,
        new: BlockBuilder,
        matrix: ValidatorMatrix,
        r: bool,
    ) -> bool {
        &&& r <==> (old.validators.is_none() && old.header.is_some() && old.acquisition_state
            != BlockAcquisitionState::Failed && matrix.has_era(old.header.unwrap().era_id))
        &&& !r ==> new == old
        &&& r ==> {
            &&& new.validators.is_some()
            &&& new.validators.unwrap().era_id == old.header.unwrap().era_id
            &&& exists|i: int|
                0 <= i < matrix.eras@.len() && matrix.eras@[i].era_id == old.header.unwrap().era_id
                    && matrix.eras@[i].validators@ == new.validators.unwrap().validators@
            &&& new.latch == Latch::Unlatched
            &&& new.acquisition_state == new.cascade(old.acquisition_state)
            &&& new.signatures == old.signatures
            &&& new.header == old.header
            &&& new.block == old.block
            &&& new.approvals_hashes == old.approvals_hashes
            &&& new.deploys_have == old.deploys_have
            &&& new.finalized_block == old.finalized_block
            &&& new.peer_list == old.peer_list
        }
    }

    /// What `register_peers` leaves behind: the new peers are added as unknown, known ones
    /// keep their quality, and the answer clears the latch.
    pub open spec fn peers_registered(old: BlockBuilder, new: BlockBuilder, peers: Seq<NodeId>) -> bool {
        &&& new.same_items(old)
        &&& new.latch == Latch::Unlatched
        &&& forall|r: NodeId| new.peer_list.has(r) <==> (old.peer_list.has(r) || peers.contains(r))
        &&& forall|r: NodeId, x: PeerQuality|
            new.peer_list.has_with(r, x) <==> (old.peer_list.has_with(r, x) || (peers.contains(r)
                && !old.peer_list.has(r) && x == PeerQuality::Unknown))
    }

    /// What `register_block_header` leaves behind, case by case.
    pub open spec fn header_registered(old: BlockBuilder, new: BlockBuilder, header: BlockHeader, sender: Option<NodeId>, r: Result<(), BuilderError>) -> bool {
        &&& (old.acquisition_state != BlockAcquisitionState::HaveBlockHash ==> new
                == old && (r is Ok <==> old.header == Some(header)))
        &&& (old.acquisition_state == BlockAcquisitionState::HaveBlockHash && header_hash(
                header,
            ) != old.block_hash ==> {
                &&& r == Err::<(), BuilderError>(BuilderError::InvalidHeader)
                &&& new.same_items(old)
                &&& new.latch == old.latch
                &&& peer_outcome(
                    new.peer_list,
                    old.peer_list,
                    sender,
                    PeerQuality::Unreliable,
                )
            })
        &&& (old.acquisition_state == BlockAcquisitionState::HaveBlockHash && header_hash(
                header,
            ) == old.block_hash ==> {
                &&& r is Ok
                &&& new.acquisition_state == BlockAcquisitionState::HaveBlockHeader
                &&& new.header == Some(header)
                &&& new.validators.is_none()
                &&& new.block_hash == old.block_hash
                &&& new.should_fetch_execution_state == old.should_fetch_execution_state
                &&& new.max_simultaneous_peers == old.max_simultaneous_peers
                &&& new.latch_ttl == old.latch_ttl
                &&& new.latch == Latch::Unlatched
                &&& peer_outcome(
                    new.peer_list,
                    old.peer_list,
                    sender,
                    PeerQuality::Reliable,
                )
            })
    }

    /// What `register_finality_signature` leaves behind, case by case.
    pub open spec fn signature_registered(old: BlockBuilder, new: BlockBuilder, sig: FinalitySignature, sender: Option<NodeId>, r: Result<(), BuilderError>) -> bool {
        &&& (old.validators.is_none() || old.acquisition_state
                == BlockAcquisitionState::Failed ==> r == Err::<(), BuilderError>(
                BuilderError::UnexpectedItem,
            ) && new == old)
        &&& (old.validators.is_some() && old.acquisition_state
                != BlockAcquisitionState::Failed && !old.acceptable_signature(sig) ==> {
                &&& r == Err::<(), BuilderError>(BuilderError::InvalidSignature)
                &&& new.same_items(old)
                &&& new.latch == old.latch
                &&& peer_outcome(
                    new.peer_list,
                    old.peer_list,
                    sender,
                    PeerQuality::Unreliable,
                )
            })
        &&& (old.acquisition_state != BlockAcquisitionState::Failed && old.acceptable_signature(sig) && sig_keys(old.signatures@).contains(sig.public_key)
                ==> r is Ok && new == old)
        &&& (old.acquisition_state != BlockAcquisitionState::Failed && old.acceptable_signature(sig) && !sig_keys(old.signatures@).contains(sig.public_key)
                ==> {
                &&& r is Ok
                &&& new.signatures@ == old.signatures@.push(sig)
                &&& new.acquisition_state == new.cascade(
                    old.acquisition_state,
                )
                &&& new.latch == Latch::Unlatched
                &&& new.header == old.header
                &&& new.block == old.block
                &&& new.validators == old.validators
                &&& new.approvals_hashes == old.approvals_hashes
                &&& new.deploys_have == old.deploys_have
                &&& new.finalized_block == old.finalized_block
                &&& new.block_hash == old.block_hash
                &&& new.should_fetch_execution_state == old.should_fetch_execution_state
                &&& peer_outcome(
                    new.peer_list,
                    old.peer_list,
                    sender,
                    PeerQuality::Reliable,
                )
            })
    }

    /// What `register_block` leaves behind, case by case.
    pub open spec fn block_registered(old: BlockBuilder, new: BlockBuilder, block: Block, sender: Option<NodeId>, r: Result<(), BuilderError>) -> bool {
        &&& (old.acquisition_state != BlockAcquisitionState::HaveWeakFinalitySignatures
                ==> new == old && (r is Ok <==> (old.block.is_some() && old.block.unwrap().hash == block.hash)))
        &&& (old.acquisition_state == BlockAcquisitionState::HaveWeakFinalitySignatures
                && !old.matching_block(block) ==> {
                &&& r == Err::<(), BuilderError>(BuilderError::InvalidBlock)
                &&& new.same_items(old)
                &&& new.latch == old.latch
                &&& peer_outcome(
                    new.peer_list,
                    old.peer_list,
                    sender,
                    PeerQuality::Unreliable,
                )
            })
        &&& (old.acquisition_state == BlockAcquisitionState::HaveWeakFinalitySignatures
                && old.matching_block(block) ==> {
                &&& r is Ok
                &&& new.acquisition_state == BlockAcquisitionState::HaveBlock
                &&& new.block == Some(block)
                &&& new.latch == Latch::Unlatched
                &&& new.signatures == old.signatures
                &&& new.validators == old.validators
                &&& new.header == old.header
                &&& new.block_hash == old.block_hash
                &&& new.should_fetch_execution_state == old.should_fetch_execution_state
                &&& peer_outcome(
                    new.peer_list,
                    old.peer_list,
                    sender,
                    PeerQuality::Reliable,
                )
            })
    }

    /// What `register_approvals_hashes` leaves behind, case by case.
    pub open spec fn approvals_hashes_registered(old: BlockBuilder, new: BlockBuilder, ah: ApprovalsHashes, sender: Option<NodeId>, r: Result<(), BuilderError>) -> bool {
        &&& (!(old.acquisition_state == BlockAcquisitionState::HaveBlock && old.deploy_count() > 0)
                ==> new == old && (r is Ok <==> (old.approvals_hashes.is_some()
                && old.approvals_hashes.unwrap().block_hash == ah.block_hash && old.approvals_hashes.unwrap().approvals_hashes@ == ah.approvals_hashes@)))
        &&& (old.acquisition_state == BlockAcquisitionState::HaveBlock && old.deploy_count() > 0
                && !old.matching_approvals(ah) ==> {
                &&& r == Err::<(), BuilderError>(BuilderError::InvalidApprovalsHashes)
                &&& new.same_items(old)
                &&& new.latch == old.latch
                &&& peer_outcome(
                    new.peer_list,
                    old.peer_list,
                    sender,
                    PeerQuality::Unreliable,
                )
            })
        &&& (old.acquisition_state == BlockAcquisitionState::HaveBlock && old.deploy_count() > 0
                && old.matching_approvals(ah) ==> {
                &&& r is Ok
                &&& new.acquisition_state == BlockAcquisitionState::HaveApprovalsHashes
                &&& new.approvals_hashes == Some(ah)
                &&& new.latch == Latch::Unlatched
                &&& new.block == old.block
                &&& new.signatures == old.signatures
                &&& new.deploys_have@.len() == 0
                &&& new.block_hash == old.block_hash
                &&& new.should_fetch_execution_state == old.should_fetch_execution_state
                &&& peer_outcome(
                    new.peer_list,
                    old.peer_list,
                    sender,
                    PeerQuality::Reliable,
                )
            })
    }

    /// What `register_deploy` leaves behind, case by case.
    pub open spec fn deploy_registered(old: BlockBuilder, new: BlockBuilder, deploy: Deploy, sender: Option<NodeId>, r: Result<(), BuilderError>) -> bool {
        &&& (old.deploys_have@.contains(deploy.id_spec()) ==> r is Ok && new == old)
        &&& (!old.deploys_have@.contains(deploy.id_spec()) && old.acquisition_state
                != BlockAcquisitionState::HaveApprovalsHashes ==> r == Err::<(), BuilderError>(
                BuilderError::UnexpectedItem) && new == old)
        &&& (!old.deploys_have@.contains(deploy.id_spec()) && old.acquisition_state
                == BlockAcquisitionState::HaveApprovalsHashes && !old.expects_deploy(
                deploy.id_spec()) ==> {
                &&& r == Err::<(), BuilderError>(BuilderError::InvalidDeploy)
                &&& new.same_items(old)
                &&& new.latch == old.latch
                &&& peer_outcome(
                    new.peer_list,
                    old.peer_list,
                    sender,
                    PeerQuality::Unreliable,
                )
            })
        &&& (!old.deploys_have@.contains(deploy.id_spec()) && old.acquisition_state
                == BlockAcquisitionState::HaveApprovalsHashes && old.expects_deploy(
                deploy.id_spec()) ==> {
                &&& r is Ok
                &&& new.deploys_have@ == old.deploys_have@.push(deploy.id_spec())
                &&& new.acquisition_state == new.cascade(
                    old.acquisition_state,
                )
                &&& new.latch == Latch::Unlatched
                &&& new.block == old.block
                &&& new.approvals_hashes == old.approvals_hashes
                &&& new.signatures == old.signatures
                &&& new.block_hash == old.block_hash
                &&& new.should_fetch_execution_state == old.should_fetch_execution_state
                &&& peer_outcome(
                    new.peer_list,
                    old.peer_list,
                    sender,
                    PeerQuality::Reliable,
                )
            })
    }

    /// What `register_execution_results` leaves behind, case by case.
    pub open spec fn execution_results_registered(old: BlockBuilder, new: BlockBuilder, for_block: BlockHash, sender: Option<NodeId>, r: Result<(), BuilderError>) -> bool {
        &&& (old.acquisition_state != BlockAcquisitionState::HaveGlobalState ==> new
                == old && (r is Ok <==> (old.acquisition_state
                == BlockAcquisitionState::Synced && old.should_fetch_execution_state
                && for_block == old.block_hash)))
        &&& (old.acquisition_state == BlockAcquisitionState::HaveGlobalState && for_block
                != old.block_hash ==> {
                &&& r == Err::<(), BuilderError>(BuilderError::InvalidResult)
                &&& new.same_items(old)
                &&& new.latch == old.latch
                &&& peer_outcome(
                    new.peer_list,
                    old.peer_list,
                    sender,
                    PeerQuality::Unreliable,
                )
            })
        &&& (old.acquisition_state == BlockAcquisitionState::HaveGlobalState && for_block
                == old.block_hash ==> {
                &&& r is Ok
                &&& new.acquisition_state == BlockAcquisitionState::Synced
                &&& new.latch == Latch::Unlatched
                &&& new.block_hash == old.block_hash
                &&& peer_outcome(
                    new.peer_list,
                    old.peer_list,
                    sender,
                    PeerQuality::Reliable,
                )
            })
    }

    /// What `register_made_finalized_block` leaves behind, case by case.
    pub open spec fn finalized_block_registered(old: BlockBuilder, new: BlockBuilder, result: Option<FinalizedBlock>, r: Result<(), BuilderError>) -> bool {
        &&& (old.acquisition_state != BlockAcquisitionState::HaveStrictFinalitySignatures
                || old.should_fetch_execution_state ==> r == Err::<(), BuilderError>(
                BuilderError::UnexpectedItem) && new == old)
        &&& (old.acquisition_state == BlockAcquisitionState::HaveStrictFinalitySignatures
                && !old.should_fetch_execution_state ==> match result {
                None => r is Ok && new.acquisition_state == BlockAcquisitionState::Failed
                    && new.block_hash == old.block_hash,
                Some(fb) => if fb.block_hash == old.block_hash {
                    &&& r is Ok
                    &&& new.acquisition_state == BlockAcquisitionState::HaveFinalizedBlock
                    &&& new.finalized_block == Some(fb)
                    &&& new.latch == Latch::Unlatched
                    &&& new.block_hash == old.block_hash
                    &&& new.peer_list == old.peer_list
                } else {
                    r == Err::<(), BuilderError>(BuilderError::InvalidResult) && new == old
                },
            })
    }

    /// What `register_block_execution_enqueued` leaves behind, case by case.
    pub open spec fn execution_enqueued_registered(old: BlockBuilder, new: BlockBuilder, r: Result<(), BuilderError>) -> bool {
        &&& (old.acquisition_state == BlockAcquisitionState::HaveFinalizedBlock ==> r is Ok
                && new.acquisition_state == BlockAcquisitionState::Executing && new.same_data(old))
        &&& (old.acquisition_state != BlockAcquisitionState::HaveFinalizedBlock ==> r == Err::<(), BuilderError>(BuilderError::UnexpectedItem) && new == old)
    }

    /// What `register_block_executed` leaves behind, case by case.
    pub open spec fn executed_registered(old: BlockBuilder, new: BlockBuilder, r: Result<(), BuilderError>) -> bool {
        &&& (old.acquisition_state == BlockAcquisitionState::Executing ==> r is Ok && new.acquisition_state == BlockAcquisitionState::Synced && new.same_data(
                old))
        &&& (old.acquisition_state == BlockAcquisitionState::Synced ==> r is Ok && new
                == old)
        &&& (old.acquisition_state != BlockAcquisitionState::Executing && old.acquisition_state
                != BlockAcquisitionState::Synced ==> r == Err::<(), BuilderError>(
                BuilderError::UnexpectedItem) && new == old)
    }

    /// What `register_global_state_synced` leaves behind, case by case.
    pub open spec fn global_state_registered(old: BlockBuilder, new: BlockBuilder, result: Result<GlobalStateSynced, GlobalStateSyncError>, r: Result<(), BuilderError>) -> bool {
        &&& (old.acquisition_state != BlockAcquisitionState::HaveStrictFinalitySignatures
                || !old.should_fetch_execution_state ==> r == Err::<(), BuilderError>(
                BuilderError::UnexpectedItem) && new == old)
        &&& (old.acquisition_state == BlockAcquisitionState::HaveStrictFinalitySignatures
                && old.should_fetch_execution_state ==> match result {
                Err(GlobalStateSyncError::TrieAccumulator(peers)) => {
                    &&& r is Ok
                    &&& new.same_items(old)
                    &&& new.latch == old.latch
                    &&& forall|p: NodeId| peers@.contains(p) ==> new.peer_list.has_with(p, PeerQuality::Unreliable)
                    &&& forall|p: NodeId, x: PeerQuality| !peers@.contains(p) ==> (new.peer_list.has_with(p, x) <==> old.peer_list.has_with(p, x))
                },
                Ok(resp) => if resp.state_root_hash == old.header.unwrap().state_root {
                    &&& r is Ok
                    &&& new.acquisition_state == BlockAcquisitionState::HaveGlobalState
                    &&& new.latch == Latch::Unlatched
                    &&& new.block_hash == old.block_hash
                    &&& new.same_items_but_state(old)
                    &&& forall|p: NodeId| resp.unreliable_peers@.contains(p) ==> new.peer_list.has_with(p, PeerQuality::Unreliable)
                    &&& forall|p: NodeId, x: PeerQuality| !resp.unreliable_peers@.contains(p) ==> (new.peer_list.has_with(p, x) <==> old.peer_list.has_with(p, x))
                } else {
                    r == Err::<(), BuilderError>(BuilderError::InvalidResult) && new == old
                },
            })
    }

    /// The id of the deploy at position `i` of the body, with its approvals hash.
    pub open spec fn expected_id(self, i: int) -> DeployId {
        DeployId {
            deploy_hash: self.block.unwrap().body.deploy_hashes@[i],
            approvals_hash: self.approvals_hashes.unwrap().approvals_hashes@[i],
        }
    }

    /// The approvals hashes name this deploy id.
    pub open spec fn expects_deploy(self, id: DeployId) -> bool {
        &&& self.block.is_some()
        &&& self.approvals_hashes.is_some()
        &&& exists|i: int| 0 <= i < self.deploy_count() && self.expected_id(i) == id
    }

    pub open spec fn has_all_deploys(self) -> bool {
        forall|i: int| 0 <= i < self.deploy_count() ==> self.deploys_have@.contains(self.expected_id(i))
    }

    /// Strict finality cannot be reached even if every validator that has not signed yet
    /// signs: the weight still to be asked for cannot lift the signed weight above two thirds.
    pub open spec fn strict_unreachable(self) -> bool {
        self.validators.is_some() && !is_strict(self.total_weight_spec(), self.total_weight_spec())
    }

    /// The state reached from `s` by the transitions that need no new item; a builder that
    /// has not reached strict finality fails where it can no longer reach it.
    pub open spec fn cascade(self, s: BlockAcquisitionState) -> BlockAcquisitionState {
        let s0 = if 1 <= rank(s) <= 5 && self.strict_unreachable() {
            BlockAcquisitionState::Failed
        } else {
            s
        };
        let s1 = if s0 == BlockAcquisitionState::HaveBlockHeader && self.weak() {
            BlockAcquisitionState::HaveWeakFinalitySignatures
        } else {
            s0
        };
        let s2 = if s1 == BlockAcquisitionState::HaveBlock && self.deploy_count() == 0 {
            BlockAcquisitionState::HaveAllDeploys
        } else {
            s1
        };
        let s3 = if s2 == BlockAcquisitionState::HaveApprovalsHashes && self.has_all_deploys() {
            BlockAcquisitionState::HaveAllDeploys
        } else {
            s2
        };
        let s4 = if s3 == BlockAcquisitionState::HaveAllDeploys && self.strict() {
            BlockAcquisitionState::HaveStrictFinalitySignatures
        } else {
            s3
        };
        if s4 == BlockAcquisitionState::HaveExecutionResults {
            BlockAcquisitionState::Synced
        } else {
            s4
        }
    }

    /// Signatures are from distinct validators of the block's era, for this block.
    pub open spec fn sigs_wf(self) -> bool {
        &&& forall|i: int, j: int|
            0 <= i < self.signatures@.len() && 0 <= j < self.signatures@.len() && i != j
                ==> self.signatures@[i].public_key != self.signatures@[j].public_key
        &&& forall|i: int|
            0 <= i < self.signatures@.len() ==> {
                let s = #[trigger] self.signatures@[i];
                &&& s.block_hash == self.block_hash
                &&& self.validators.is_some()
                &&& s.era_id == self.validators.unwrap().era_id
                &&& self.validators.unwrap().has_validator(s.public_key)
            }
    }

    /// Deploys held are distinct and named by the approvals hashes.
    pub open spec fn deploys_wf(self) -> bool {
        &&& forall|i: int|
            0 <= i < self.deploys_have@.len() ==> self.expects_deploy(#[trigger] self.deploys_have@[i])
        &&& self.deploys_have@.no_duplicates()
    }

    /// The items held match the block hash and each other, and the state has what it needs.
    pub open spec fn items_wf(self) -> bool {
        let r = self.state_rank();
        &&& self.validators.is_some() ==> {
            &&& self.validators.unwrap().wf()
            &&& self.header.is_some()
            &&& self.validators.unwrap().era_id == self.header.unwrap().era_id
        }
        &&& self.header.is_some() ==> header_hash(self.header.unwrap()) == self.block_hash
        &&& self.acquisition_state == BlockAcquisitionState::HaveBlockHash ==> self.header.is_none()
        &&& 1 <= r <= 9 ==> self.header.is_some()
        &&& 2 <= r <= 9 ==> self.validators.is_some()
        &&& 3 <= r <= 9 ==> self.block.is_some()
        &&& r <= 2 ==> self.block.is_none()
        &&& r <= 3 ==> self.approvals_hashes.is_none()
        &&& r <= 6 ==> self.finalized_block.is_none()
        &&& self.block.is_some() ==> {
            let b = self.block.unwrap();
            &&& b.hash == self.block_hash
            &&& self.header == Some(b.header)
            &&& b.header.body_hash == body_hash(b.body.deploy_hashes@)
        }
        &&& self.approvals_hashes.is_some() ==> {
            &&& self.block.is_some()
            &&& self.approvals_hashes.unwrap().block_hash == self.block_hash
            &&& self.approvals_hashes.unwrap().approvals_hashes@.len() == self.deploy_count()
        }
        &&& self.acquisition_state == BlockAcquisitionState::HaveApprovalsHashes
            ==> self.approvals_hashes.is_some()
        &&& self.finalized_block.is_some() ==> self.finalized_block.unwrap().block_hash
            == self.block_hash
        &&& self.acquisition_state == BlockAcquisitionState::HaveFinalizedBlock
            ==> self.finalized_block.is_some()
    }

    pub open spec fn wf(self) -> bool {
        &&& self.peer_list.wf()
        &&& self.max_simultaneous_peers > 0
        &&& self.sigs_wf()
        &&& self.items_wf()
        &&& self.deploys_wf()
    }

    /// A builder as `new` makes it: nothing known but the block hash.
    pub open spec fn is_fresh(
        self,
        block_hash: BlockHash,
        should_fetch_execution_state: bool,
        max_simultaneous_peers: usize,
        latch_ttl: u64,
    ) -> bool {
        &&& self.block_hash == block_hash
        &&& self.should_fetch_execution_state == should_fetch_execution_state
        &&& self.acquisition_state == BlockAcquisitionState::HaveBlockHash
        &&& self.peer_list.peers@.len() == 0
        &&& self.signatures@.len() == 0
        &&& self.header.is_none()
        &&& self.block.is_none()
        &&& self.approvals_hashes.is_none()
        &&& self.deploys_have@.len() == 0
        &&& self.validators.is_none()
        &&& self.latch == Latch::Unlatched
        &&& self.finalized_block.is_none()
        &&& self.max_simultaneous_peers == max_simultaneous_peers
        &&& self.latch_ttl == latch_ttl
    }

    /// Every field but the peer list and the latch is the same in both.
    pub open spec fn same_items(self, o: BlockBuilder) -> bool {
        &&& self.block_hash == o.block_hash
        &&& self.should_fetch_execution_state == o.should_fetch_execution_state
        &&& self.acquisition_state == o.acquisition_state
        &&& self.signatures == o.signatures
        &&& self.header == o.header
        &&& self.block == o.block
        &&& self.approvals_hashes == o.approvals_hashes
        &&& self.deploys_have == o.deploys_have
        &&& self.validators == o.validators
        &&& self.finalized_block == o.finalized_block
        &&& self.max_simultaneous_peers == o.max_simultaneous_peers
        &&& self.latch_ttl == o.latch_ttl
    }

    pub fn new(
        block_hash: BlockHash,
        should_fetch_execution_state: bool,
        max_simultaneous_peers: usize,
        latch_ttl: u64,
    ) -> (r: Self)
        requires
            max_simultaneous_peers > 0,
        ensures
            r.wf(),
            r.is_fresh(block_hash, should_fetch_execution_state, max_simultaneous_peers, latch_ttl),
    {
        BlockBuilder {
            block_hash,
            should_fetch_execution_state,
            acquisition_state: BlockAcquisitionState::HaveBlockHash,
            peer_list: PeerList::new(),
            signatures: Vec::new(),
            header: None,
            block: None,
            approvals_hashes: None,
            deploys_have: Vec::new(),
            validators: None,
            latch: Latch::Unlatched,
            finalized_block: None,
            max_simultaneous_peers,
            latch_ttl,
        }
    }

    pub fn block_hash(&self) -> (r: BlockHash)
        ensures
            r == self.block_hash,
    {
        self.block_hash
    }

    pub fn block_acquisition_state(&self) -> (r: BlockAcquisitionState)
        ensures
            r == self.acquisition_state,
    {
        self.acquisition_state
    }

    pub fn peer_list(&self) -> (r: &PeerList)
        ensures
            *r == self.peer_list,
    {
        &self.peer_list
    }

    pub fn is_failed(&self) -> (r: bool)
        ensures
            r == (self.acquisition_state == BlockAcquisitionState::Failed),
    {
        self.acquisition_state == BlockAcquisitionState::Failed
    }

    proof fn lemma_sigs_wf(a: BlockBuilder, b: BlockBuilder)
        requires
            a.sigs_wf(),
            a.signatures == b.signatures,
            a.validators == b.validators,
            a.block_hash == b.block_hash,
        ensures
            b.sigs_wf(),
    {
    }

    /// Well-formedness does not depend on the latch, nor on the peer list beyond its own.
    pub proof fn lemma_wf_same_items(a: BlockBuilder, b: BlockBuilder)
        requires
            a.wf(),
            b.same_items(a),
            b.peer_list.wf(),
        ensures
            b.wf(),
    {
        assert(b.items_wf());
        Self::lemma_sigs_wf(a, b);
        assert forall|i: int| 0 <= i < b.deploys_have@.len() implies b.expects_deploy(
            #[trigger] b.deploys_have@[i],
        ) by {
            assert(a.expects_deploy(a.deploys_have@[i]));
            let k = choose|k: int| 0 <= k < a.deploy_count() && a.expected_id(k) == a.deploys_have@[i];
            assert(b.expected_id(k) == a.expected_id(k));
        }
    }

    /// Marks the sender of an item reliable (`good`) or unreliable.
    fn mark_sender(&mut self, sender: Option<NodeId>, good: bool)
        requires
            old(self).wf(),
        ensures
            final(self).wf(),
            final(self).same_items(*old(self)),
            final(self).latch == old(self).latch,
            peer_outcome(
                final(self).peer_list,
                old(self).peer_list,
                sender,
                if good {
                    PeerQuality::Reliable
                } else {
                    PeerQuality::Unreliable
                },
            ),
    {
        match sender {
            Some(p) => {
                if good {
                    self.peer_list.promote_peer(p);
                } else {
                    self.peer_list.disqualify_peer(p);
                }
                proof {
                    Self::lemma_wf_same_items(*old(self), *self);
                }
            },
            None => {},
        }
    }

    /// The block and the settings are the same in both.
    pub open spec fn config_same(self, o: BlockBuilder) -> bool {
        &&& self.block_hash == o.block_hash
        &&& self.should_fetch_execution_state == o.should_fetch_execution_state
        &&& self.max_simultaneous_peers == o.max_simultaneous_peers
        &&& self.latch_ttl == o.latch_ttl
    }

    /// The deploy with this id is named by the approvals hashes, or held already.
    pub open spec fn wants_deploy(self, id: DeployId) -> bool {
        self.expects_deploy(id) || self.deploys_have@.contains(id)
    }

    /// Every field but the acquisition state, the peer list and the latch is the same in both.
    pub open spec fn same_items_but_state(self, o: BlockBuilder) -> bool {
        &&& self.block_hash == o.block_hash
        &&& self.should_fetch_execution_state == o.should_fetch_execution_state
        &&& self.signatures == o.signatures
        &&& self.header == o.header
        &&& self.block == o.block
        &&& self.approvals_hashes == o.approvals_hashes
        &&& self.deploys_have == o.deploys_have
        &&& self.validators == o.validators
        &&& self.finalized_block == o.finalized_block
        &&& self.max_simultaneous_peers == o.max_simultaneous_peers
        &&& self.latch_ttl == o.latch_ttl
    }

    /// Every field but the acquisition state is the same in both.
    pub open spec fn same_data(self, o: BlockBuilder) -> bool {
        &&& self.block_hash == o.block_hash
        &&& self.should_fetch_execution_state == o.should_fetch_execution_state
        &&& self.peer_list == o.peer_list
        &&& self.signatures == o.signatures
        &&& self.header == o.header
        &&& self.block == o.block
        &&& self.approvals_hashes == o.approvals_hashes
        &&& self.deploys_have == o.deploys_have
        &&& self.validators == o.validators
        &&& self.latch == o.latch
        &&& self.finalized_block == o.finalized_block
        &&& self.max_simultaneous_peers == o.max_simultaneous_peers
        &&& self.latch_ttl == o.latch_ttl
    }

    fn signer_keys(&self) -> (r: Vec<PublicKey>)
        ensures
            r@ == sig_keys(self.signatures@),
    {
        let mut r: Vec<PublicKey> = Vec::new();
        let mut i: usize = 0;
        while i < self.signatures.len()
            invariant
                i <= self.signatures@.len(),
                r@ == sig_keys(self.signatures@.subrange(0, i as int)),
            decreases self.signatures@.len() - i,
        {
            r.push(self.signatures[i].public_key);
            proof {
                assert(r@ =~= sig_keys(self.signatures@.subrange(0, i as int + 1)));
            }
            i = i + 1;
        }
        assert(self.signatures@.subrange(0, i as int) =~= self.signatures@);
        r
    }

    /// Whether weak and strict finality are reached.
    fn finality(&self) -> (r: (bool, bool))
        requires
            self.wf(),
        ensures
            r.0 == self.weak(),
            r.1 == self.strict(),
    {
        match &self.validators {
            None => (false, false),
            Some(v) => {
                let keys = self.signer_keys();
                let signed = v.signed_weight(&keys) as u128;
                let total = v.total_weight() as u128;
                (3 * signed >= total, 3 * signed > 2 * total)
            },
        }
    }

    fn all_deploys_held(&self) -> (r: bool)
        requires
            self.wf(),
            self.block.is_some(),
            self.approvals_hashes.is_some(),
        ensures
            r == self.has_all_deploys(),
    {
        let block = self.block.as_ref().unwrap();
        let ah = self.approvals_hashes.as_ref().unwrap();
        let n = block.body.deploy_hashes.len();
        let mut i: usize = 0;
        while i < n
            invariant
                self.wf(),
                self.block == Some(*block),
                self.approvals_hashes == Some(*ah),
                n == self.deploy_count(),
                i <= n,
                forall|k: int| 0 <= k < i ==> self.deploys_have@.contains(self.expected_id(k)),
            decreases n - i,
        {
            let id = DeployId {
                deploy_hash: block.body.deploy_hashes[i],
                approvals_hash: ah.approvals_hashes[i],
            };
            assert(id == self.expected_id(i as int));
            if !self.holds_deploy(&id) {
                return false;
            }
            i = i + 1;
        }
        true
    }

    fn holds_deploy(&self, id: &DeployId) -> (r: bool)
        ensures
            r == self.deploys_have@.contains(*id),
    {
        let mut i: usize = 0;
        while i < self.deploys_have.len()
            invariant
                i <= self.deploys_have@.len(),
                forall|k: int| 0 <= k < i ==> self.deploys_have@[k] != *id,
            decreases self.deploys_have@.len() - i,
        {
            if self.deploys_have[i] == *id {
                return true;
            }
            i = i + 1;
        }
        false
    }

    proof fn lemma_cascade_wf(a: BlockBuilder, b: BlockBuilder)
        requires
            a.wf(),
            b.same_data(a),
            b.acquisition_state == a.cascade(a.acquisition_state),
        ensures
            b.wf(),
            rank(a.acquisition_state) <= rank(b.acquisition_state),
    {
        Self::lemma_sigs_wf(a, b);
        assert(b.deploys_have@ == a.deploys_have@);
        assert forall|i: int| 0 <= i < b.deploys_have@.len() implies b.expects_deploy(
            #[trigger] b.deploys_have@[i],
        ) by {
            assert(a.expects_deploy(a.deploys_have@[i]));
            let k = choose|k: int| 0 <= k < a.deploy_count() && a.expected_id(k) == a.deploys_have@[i];
            assert(b.expected_id(k) == a.expected_id(k));
        }
    }

    /// Takes every transition that needs no new item.
    fn advance(&mut self)
        requires
            old(self).wf(),
        ensures
            final(self).wf(),
            final(self).same_data(*old(self)),
            final(self).acquisition_state == old(self).cascade(old(self).acquisition_state),
            rank(old(self).acquisition_state) <= rank(final(self).acquisition_state),
    {
        let (weak, strict) = self.finality();
        let unreachable = match &self.validators {
            Some(v) => v.total_weight() == 0,
            None => false,
        };
        let mut s = self.acquisition_state;
        if s != BlockAcquisitionState::HaveBlockHash && unreachable {
            match s {
                BlockAcquisitionState::HaveBlockHeader
                | BlockAcquisitionState::HaveWeakFinalitySignatures
                | BlockAcquisitionState::HaveBlock
                | BlockAcquisitionState::HaveApprovalsHashes
                | BlockAcquisitionState::HaveAllDeploys => {
                    s = BlockAcquisitionState::Failed;
                },
                _ => {},
            }
        }
        if s == BlockAcquisitionState::HaveBlockHeader && weak {
            s = BlockAcquisitionState::HaveWeakFinalitySignatures;
        }
        if s == BlockAcquisitionState::HaveBlock {
            if self.block.as_ref().unwrap().body.deploy_hashes.len() == 0 {
                s = BlockAcquisitionState::HaveAllDeploys;
            }
        }
        if s == BlockAcquisitionState::HaveApprovalsHashes {
            if self.all_deploys_held() {
                s = BlockAcquisitionState::HaveAllDeploys;
            }
        }
        if s == BlockAcquisitionState::HaveAllDeploys && strict {
            s = BlockAcquisitionState::HaveStrictFinalitySignatures;
        }
        if s == BlockAcquisitionState::HaveExecutionResults {
            s = BlockAcquisitionState::Synced;
        }
        self.acquisition_state = s;
        proof {
            Self::lemma_cascade_wf(*old(self), *self);
        }
    }

    /// How much of the era's weight has signed: insufficient until the era's weights are known.
    pub fn signature_weight(&self) -> (r: SignatureWeight)
        requires
            self.wf(),
        ensures
            self.validators is None ==> r == SignatureWeight::Insufficient,
            self.validators is Some ==> r == finality_level(
                self.signed_weight_spec(),
                self.total_weight_spec(),
            ),
    {
        match &self.validators {
            None => SignatureWeight::Insufficient,
            Some(v) => {
                let keys = self.signer_keys();
                proof {
                    lemma_signed_le_total(v.validators@, keys@);
                }
                signature_weight(v.signed_weight(&keys), v.total_weight())
            },
        }
    }

    /// Registers the block's header, checking that it hashes to the block hash.
    pub fn register_block_header(&mut self, header: BlockHeader, sender: Option<NodeId>) -> (r:
        Result<(), BuilderError>)
        requires
            old(self).wf(),
        ensures
            final(self).wf(),
            final(self).config_same(*old(self)),
            rank(old(self).acquisition_state) <= rank(final(self).acquisition_state),
            Self::header_registered(*old(self), *final(self), header, sender, r),

    {
        if self.acquisition_state != BlockAcquisitionState::HaveBlockHash {
            return match self.header {
                Some(h) => if h == header {
                    Ok(())
                } else {
                    Err(BuilderError::UnexpectedItem)
                },
                None => Err(BuilderError::UnexpectedItem),
            };
        }
        if header.block_hash() != self.block_hash {
            self.mark_sender(sender, false);
            return Err(BuilderError::InvalidHeader);
        }
        proof {
            assert(self.signatures@.len() == 0) by {
                if self.signatures@.len() > 0 {
                    assert(self.signatures@[0].block_hash == self.block_hash);
                }
            }
            assert(self.deploys_have@.len() == 0) by {
                if self.deploys_have@.len() > 0 {
                    assert(self.expects_deploy(self.deploys_have@[0]));
                }
            }
        }
        self.header = Some(header);
        self.acquisition_state = BlockAcquisitionState::HaveBlockHeader;
        self.latch = Latch::Unlatched;
        self.mark_sender(sender, true);
        Ok(())
    }

    /// Takes the weights of the header's era from the matrix, if the matrix has them.
    pub fn register_era_validator_weights(&mut self, matrix: &ValidatorMatrix) -> (r: bool)
        requires
            old(self).wf(),
            matrix.wf(),
        ensures
            final(self).wf(),
            final(self).config_same(*old(self)),
            rank(old(self).acquisition_state) <= rank(final(self).acquisition_state),
            Self::era_weights_registered(*old(self), *final(self), *matrix, r),
    {
        if self.validators.is_some() || self.acquisition_state == BlockAcquisitionState::Failed {
            return false;
        }
        let era = match self.header {
            Some(h) => h.era_id,
            None => {
                return false;
            },
        };
        match matrix.validator_weights(era) {
            None => false,
            Some(w) => {
                proof {
                    assert(self.signatures@.len() == 0) by {
                        if self.signatures@.len() > 0 {
                            assert(self.signatures@[0].block_hash == self.block_hash);
                        }
                    }
                }
                self.validators = Some(w);
                self.latch = Latch::Unlatched;
                self.advance();
                true
            },
        }
    }

    fn has_signer(&self, k: PublicKey) -> (r: bool)
        ensures
            r == sig_keys(self.signatures@).contains(k),
    {
        let mut i: usize = 0;
        while i < self.signatures.len()
            invariant
                i <= self.signatures@.len(),
                forall|a: int| 0 <= a < i ==> self.signatures@[a].public_key != k,
            decreases self.signatures@.len() - i,
        {
            if self.signatures[i].public_key == k {
                assert(sig_keys(self.signatures@)[i as int] == k);
                return true;
            }
            i = i + 1;
        }
        proof {
            if sig_keys(self.signatures@).contains(k) {
                let a = choose|a: int| 0 <= a < sig_keys(self.signatures@).len() && sig_keys(self.signatures@)[a] == k;
                assert(self.signatures@[a].public_key == k);
            }
        }
        false
    }

    /// The signature is for this block and era, from one of the era's validators.
    pub open spec fn acceptable_signature(self, sig: FinalitySignature) -> bool {
        &&& self.validators.is_some()
        &&& sig.block_hash == self.block_hash
        &&& sig.era_id == self.validators.unwrap().era_id
        &&& self.validators.unwrap().has_validator(sig.public_key)
    }

    /// The cascade reads only the signatures, validators and items.
    pub proof fn lemma_cascade_same(a: BlockBuilder, b: BlockBuilder, s: BlockAcquisitionState)
        requires
            b.signatures == a.signatures,
            b.validators == a.validators,
            b.block == a.block,
            b.approvals_hashes == a.approvals_hashes,
            b.deploys_have == a.deploys_have,
        ensures
            b.cascade(s) == a.cascade(s),
    {
        assert(b.weak() == a.weak());
        assert(b.strict() == a.strict());
        assert(b.deploy_count() == a.deploy_count());
        if a.has_all_deploys() {
            assert forall|i: int| 0 <= i < b.deploy_count() implies b.deploys_have@.contains(
                b.expected_id(i),
            ) by {
                assert(a.deploys_have@.contains(a.expected_id(i)));
                assert(b.expected_id(i) == a.expected_id(i));
            }
        }
        if b.has_all_deploys() {
            assert forall|i: int| 0 <= i < a.deploy_count() implies a.deploys_have@.contains(
                a.expected_id(i),
            ) by {
                assert(b.deploys_have@.contains(b.expected_id(i)));
                assert(b.expected_id(i) == a.expected_id(i));
            }
        }
    }

    proof fn lemma_push_signature(a: BlockBuilder, b: BlockBuilder, sig: FinalitySignature)
        requires
            a.wf(),
            a.acceptable_signature(sig),
            !sig_keys(a.signatures@).contains(sig.public_key),
            b.signatures@ == a.signatures@.push(sig),
            b.validators == a.validators,
            b.block_hash == a.block_hash,
            b.peer_list == a.peer_list,
            b.header == a.header,
            b.block == a.block,
            b.approvals_hashes == a.approvals_hashes,
            b.deploys_have == a.deploys_have,
            b.finalized_block == a.finalized_block,
            b.acquisition_state == a.acquisition_state,
            b.max_simultaneous_peers == a.max_simultaneous_peers,
        ensures
            b.wf(),
    {
        assert(b.items_wf());
        assert forall|i: int| 0 <= i < b.deploys_have@.len() implies b.expects_deploy(
            #[trigger] b.deploys_have@[i],
        ) by {
            assert(a.expects_deploy(a.deploys_have@[i]));
            let k = choose|k: int| 0 <= k < a.deploy_count() && a.expected_id(k) == a.deploys_have@[i];
            assert(b.expected_id(k) == a.expected_id(k));
        }
        assert forall|i: int, j: int|
            0 <= i < b.signatures@.len() && 0 <= j < b.signatures@.len() && i != j implies b.signatures@[i].public_key != b.signatures@[j].public_key by {
            if i < a.signatures@.len() && j < a.signatures@.len() {
                assert(b.signatures@[i] == a.signatures@[i]);
                assert(b.signatures@[j] == a.signatures@[j]);
            } else if i < a.signatures@.len() {
                assert(sig_keys(a.signatures@)[i] == a.signatures@[i].public_key);
            } else {
                assert(sig_keys(a.signatures@)[j] == a.signatures@[j].public_key);
            }
        }
        assert forall|i: int| 0 <= i < b.signatures@.len() implies {
            let s = #[trigger] b.signatures@[i];
            &&& s.block_hash == b.block_hash
            &&& b.validators.is_some()
            &&& s.era_id == b.validators.unwrap().era_id
            &&& b.validators.unwrap().has_validator(s.public_key)
        } by {
            if i < a.signatures@.len() {
                assert(b.signatures@[i] == a.signatures@[i]);
            }
        }
    }

    /// Registers a finality signature: counted once per validator, and only from a validator
    /// of the header's era.
    pub fn register_finality_signature(&mut self, sig: FinalitySignature, sender: Option<NodeId>) -> (r:
        Result<(), BuilderError>)
        requires
            old(self).wf(),
        ensures
            final(self).wf(),
            final(self).config_same(*old(self)),
            rank(old(self).acquisition_state) <= rank(final(self).acquisition_state),
            Self::signature_registered(*old(self), *final(self), sig, sender, r),

    {
        if self.acquisition_state == BlockAcquisitionState::Failed {
            return Err(BuilderError::UnexpectedItem);
        }
        let ok = match &self.validators {
            None => {
                return Err(BuilderError::UnexpectedItem);
            },
            Some(v) => sig.block_hash == self.block_hash && sig.era_id == v.era_id && v.contains(
                sig.public_key,
            ),
        };
        if !ok {
            self.mark_sender(sender, false);
            return Err(BuilderError::InvalidSignature);
        }
        if self.has_signer(sig.public_key) {
            return Ok(());
        }
        let ghost before = *self;
        self.signatures.push(sig);
        self.latch = Latch::Unlatched;
        proof {
            Self::lemma_push_signature(before, *self, sig);
        }
        let ghost pushed = *self;
        self.advance();
        let ghost mid = *self;
        self.mark_sender(sender, true);
        proof {
            Self::lemma_cascade_same(pushed, mid, before.acquisition_state);
            Self::lemma_cascade_same(mid, *self, before.acquisition_state);
        }
        Ok(())
    }

    proof fn lemma_no_deploys_without_approvals(a: BlockBuilder)
        requires
            a.wf(),
            a.approvals_hashes.is_none(),
        ensures
            a.deploys_have@.len() == 0,
    {
        if a.deploys_have@.len() > 0 {
            assert(a.expects_deploy(a.deploys_have@[0]));
        }
    }

    proof fn lemma_keep_sigs_deploys(a: BlockBuilder, b: BlockBuilder)
        requires
            a.wf(),
            b.signatures == a.signatures,
            b.validators == a.validators,
            b.block_hash == a.block_hash,
            b.block == a.block,
            b.approvals_hashes == a.approvals_hashes,
            b.deploys_have == a.deploys_have,
        ensures
            b.sigs_wf(),
            b.deploys_wf(),
    {
        Self::lemma_sigs_wf(a, b);
        assert forall|i: int| 0 <= i < b.deploys_have@.len() implies b.expects_deploy(
            #[trigger] b.deploys_have@[i],
        ) by {
            assert(a.expects_deploy(a.deploys_have@[i]));
            let k = choose|k: int| 0 <= k < a.deploy_count() && a.expected_id(k) == a.deploys_have@[i];
            assert(b.expected_id(k) == a.expected_id(k));
        }
    }

    /// The block matches the header held: same hash and header, and its deploys hash to the
    /// header's body hash.
    pub open spec fn matching_block(self, block: Block) -> bool {
        &&& self.header.is_some()
        &&& block.hash == self.block_hash
        &&& block.header == self.header.unwrap()
        &&& body_hash(block.body.deploy_hashes@) == self.header.unwrap().body_hash
    }

    /// Registers the block's body once weak finality is reached.
    pub fn register_block(&mut self, block: Block, sender: Option<NodeId>) -> (r: Result<
        (),
        BuilderError,
    >)
        requires
            old(self).wf(),
        ensures
            final(self).wf(),
            final(self).config_same(*old(self)),
            rank(old(self).acquisition_state) <= rank(final(self).acquisition_state),
            Self::block_registered(*old(self), *final(self), block, sender, r),

    {
        if self.acquisition_state != BlockAcquisitionState::HaveWeakFinalitySignatures {
            return match &self.block {
                Some(b) => if b.hash == block.hash {
                    Ok(())
                } else {
                    Err(BuilderError::UnexpectedItem)
                },
                None => Err(BuilderError::UnexpectedItem),
            };
        }
        let header = self.header.unwrap();
        if block.hash != self.block_hash || block.header != header || compute_body_hash(
            &block.body.deploy_hashes,
        ) != header.body_hash {
            self.mark_sender(sender, false);
            return Err(BuilderError::InvalidBlock);
        }
        proof {
            Self::lemma_no_deploys_without_approvals(*self);
        }
        let ghost before = *self;
        self.block = Some(block);
        self.acquisition_state = BlockAcquisitionState::HaveBlock;
        self.latch = Latch::Unlatched;
        proof {
            Self::lemma_sigs_wf(before, *self);
        }
        self.mark_sender(sender, true);
        Ok(())
    }

    fn same_digests(a: &Vec<Digest>, b: &Vec<Digest>) -> (r: bool)
        ensures
            r == (a@ == b@),
    {
        if a.len() != b.len() {
            return false;
        }
        let mut i: usize = 0;
        while i < a.len()
            invariant
                i <= a@.len(),
                a@.len() == b@.len(),
                forall|k: int| 0 <= k < i ==> a@[k] == b@[k],
            decreases a@.len() - i,
        {
            if a[i] != b[i] {
                return false;
            }
            i = i + 1;
        }
        assert(a@ =~= b@);
        true
    }

    /// The approvals hashes are for this block, one for each deploy of the body.
    pub open spec fn matching_approvals(self, ah: ApprovalsHashes) -> bool {
        &&& self.block.is_some()
        &&& ah.block_hash == self.block_hash
        &&& ah.approvals_hashes@.len() == self.deploy_count()
    }

    /// Registers the approvals hashes of a block that has deploys.
    pub fn register_approvals_hashes(&mut self, ah: ApprovalsHashes, sender: Option<NodeId>) -> (r:
        Result<(), BuilderError>)
        requires
            old(self).wf(),
        ensures
            final(self).wf(),
            final(self).config_same(*old(self)),
            rank(old(self).acquisition_state) <= rank(final(self).acquisition_state),
            Self::approvals_hashes_registered(*old(self), *final(self), ah, sender, r),

    {
        let n = match &self.block {
            Some(b) => b.body.deploy_hashes.len(),
            None => 0,
        };
        if self.acquisition_state != BlockAcquisitionState::HaveBlock || n == 0 {
            return match &self.approvals_hashes {
                Some(a) => if a.block_hash == ah.block_hash && Self::same_digests(
                    &a.approvals_hashes,
                    &ah.approvals_hashes,
                ) {
                    Ok(())
                } else {
                    Err(BuilderError::UnexpectedItem)
                },
                None => Err(BuilderError::UnexpectedItem),
            };
        }
        if ah.block_hash != self.block_hash || ah.approvals_hashes.len() != n {
            self.mark_sender(sender, false);
            return Err(BuilderError::InvalidApprovalsHashes);
        }
        proof {
            Self::lemma_no_deploys_without_approvals(*self);
        }
        let ghost before = *self;
        self.approvals_hashes = Some(ah);
        self.acquisition_state = BlockAcquisitionState::HaveApprovalsHashes;
        self.latch = Latch::Unlatched;
        proof {
            Self::lemma_sigs_wf(before, *self);
        }
        self.mark_sender(sender, true);
        Ok(())
    }

    fn expects(&self, id: &DeployId) -> (r: bool)
        requires
            self.wf(),
        ensures
            r == self.expects_deploy(*id),
    {
        match (&self.block, &self.approvals_hashes) {
            (Some(b), Some(ah)) => {
                let n = b.body.deploy_hashes.len();
                let mut i: usize = 0;
                while i < n
                    invariant
                        self.wf(),
                        self.block == Some(*b),
                        self.approvals_hashes == Some(*ah),
                        n == self.deploy_count(),
                        i <= n,
                        forall|k: int| 0 <= k < i ==> self.expected_id(k) != *id,
                    decreases n - i,
                {
                    if b.body.deploy_hashes[i] == id.deploy_hash && ah.approvals_hashes[i]
                        == id.approvals_hash {
                        assert(self.expected_id(i as int) == *id);
                        return true;
                    }
                    i = i + 1;
                }
                false
            },
            _ => false,
        }
    }

    /// Registers a deploy: only one whose id the approvals hashes name is accepted.
    pub fn register_deploy(&mut self, deploy: &Deploy, sender: Option<NodeId>) -> (r: Result<
        (),
        BuilderError,
    >)
        requires
            old(self).wf(),
        ensures
            final(self).wf(),
            final(self).config_same(*old(self)),
            rank(old(self).acquisition_state) <= rank(final(self).acquisition_state),
            Self::deploy_registered(*old(self), *final(self), *deploy, sender, r),

    {
        let id = deploy.id();
        if self.holds_deploy(&id) {
            return Ok(());
        }
        if self.acquisition_state != BlockAcquisitionState::HaveApprovalsHashes {
            return Err(BuilderError::UnexpectedItem);
        }
        if !self.expects(&id) {
            self.mark_sender(sender, false);
            return Err(BuilderError::InvalidDeploy);
        }
        let ghost before = *self;
        self.deploys_have.push(id);
        self.latch = Latch::Unlatched;
        proof {
            Self::lemma_sigs_wf(before, *self);
            assert forall|i: int| 0 <= i < self.deploys_have@.len() implies self.expects_deploy(
                #[trigger] self.deploys_have@[i],
            ) by {
                if i < before.deploys_have@.len() {
                    assert(before.expects_deploy(before.deploys_have@[i]));
                    let k = choose|k: int|
                        0 <= k < before.deploy_count() && before.expected_id(k)
                            == before.deploys_have@[i];
                    assert(self.expected_id(k) == before.expected_id(k));
                } else {
                    let k = choose|k: int|
                        0 <= k < before.deploy_count() && before.expected_id(k) == id;
                    assert(self.expected_id(k) == before.expected_id(k));
                }
            }
            assert forall|a: int, b: int|
                0 <= a < self.deploys_have@.len() && 0 <= b < self.deploys_have@.len() && a != b
                    implies self.deploys_have@[a] != self.deploys_have@[b] by {
                if a < before.deploys_have@.len() && b < before.deploys_have@.len() {
                    assert(self.deploys_have@[a] == before.deploys_have@[a]);
                    assert(self.deploys_have@[b] == before.deploys_have@[b]);
                } else if a < before.deploys_have@.len() {
                    assert(before.deploys_have@.contains(before.deploys_have@[a]));
                } else {
                    assert(before.deploys_have@.contains(before.deploys_have@[b]));
                }
            }
        }
        let ghost pushed = *self;
        self.advance();
        let ghost mid = *self;
        self.mark_sender(sender, true);
        proof {
            Self::lemma_cascade_same(pushed, mid, before.acquisition_state);
            Self::lemma_cascade_same(mid, *self, before.acquisition_state);
        }
        Ok(())
    }

    /// Adds peers that may hold the block.
    pub fn register_peers(&mut self, peers: &Vec<NodeId>)
        requires
            old(self).wf(),
        ensures
            final(self).wf(),
            Self::peers_registered(*old(self), *final(self), peers@),
    {
        let ghost before = *self;
        self.peer_list.register_peers(peers);
        self.latch = Latch::Unlatched;
        proof {
            Self::lemma_wf_same_items(before, *self);
        }
    }

    /// Records the outcome of making the block executable (forward sync only): the finalized
    /// block, or `None` where it could not be made, which fails the builder.
    pub fn register_made_finalized_block(&mut self, result: Option<FinalizedBlock>) -> (r: Result<
        (),
        BuilderError,
    >)
        requires
            old(self).wf(),
        ensures
            final(self).wf(),
            final(self).config_same(*old(self)),
            rank(old(self).acquisition_state) <= rank(final(self).acquisition_state),
            Self::finalized_block_registered(*old(self), *final(self), result, r),

    {
        if self.acquisition_state != BlockAcquisitionState::HaveStrictFinalitySignatures
            || self.should_fetch_execution_state {
            return Err(BuilderError::UnexpectedItem);
        }
        let ghost before = *self;
        match result {
            None => {
                self.acquisition_state = BlockAcquisitionState::Failed;
                proof {
                    Self::lemma_keep_sigs_deploys(before, *self);
                }
                Ok(())
            },
            Some(fb) => {
                if fb.block_hash != self.block_hash {
                    return Err(BuilderError::InvalidResult);
                }
                self.finalized_block = Some(fb);
                self.acquisition_state = BlockAcquisitionState::HaveFinalizedBlock;
                self.latch = Latch::Unlatched;
                proof {
                    Self::lemma_keep_sigs_deploys(before, *self);
                }
                Ok(())
            },
        }
    }

    /// Moves a builder whose finalized block was enqueued for execution to `Executing`.
    pub fn register_block_execution_enqueued(&mut self) -> (r: Result<(), BuilderError>)
        requires
            old(self).wf(),
        ensures
            final(self).wf(),
            final(self).config_same(*old(self)),
            rank(old(self).acquisition_state) <= rank(final(self).acquisition_state),
            Self::execution_enqueued_registered(*old(self), *final(self), r),

    {
        if self.acquisition_state != BlockAcquisitionState::HaveFinalizedBlock {
            return Err(BuilderError::UnexpectedItem);
        }
        let ghost before = *self;
        self.acquisition_state = BlockAcquisitionState::Executing;
        proof {
            Self::lemma_keep_sigs_deploys(before, *self);
        }
        Ok(())
    }

    /// Moves an executing builder to `Synced`; a synced one stays.
    pub fn register_block_executed(&mut self) -> (r: Result<(), BuilderError>)
        requires
            old(self).wf(),
        ensures
            final(self).wf(),
            final(self).config_same(*old(self)),
            rank(old(self).acquisition_state) <= rank(final(self).acquisition_state),
            Self::executed_registered(*old(self), *final(self), r),

    {
        if self.acquisition_state == BlockAcquisitionState::Synced {
            return Ok(());
        }
        if self.acquisition_state != BlockAcquisitionState::Executing {
            return Err(BuilderError::UnexpectedItem);
        }
        let ghost before = *self;
        self.acquisition_state = BlockAcquisitionState::Synced;
        proof {
            Self::lemma_keep_sigs_deploys(before, *self);
        }
        Ok(())
    }

    /// Marks each of `peers` unreliable.
    fn disqualify_peers(&mut self, peers: &Vec<NodeId>)
        requires
            old(self).wf(),
        ensures
            final(self).wf(),
            final(self).same_items(*old(self)),
            final(self).latch == old(self).latch,
            forall|p: NodeId| peers@.contains(p) ==> final(self).peer_list.has_with(p, PeerQuality::Unreliable),
            forall|p: NodeId, x: PeerQuality| !peers@.contains(p) ==> (final(self).peer_list.has_with(p, x) <==> old(self).peer_list.has_with(p, x)),
    {
        let mut i: usize = 0;
        while i < peers.len()
            invariant
                i <= peers@.len(),
                self.wf(),
                self.same_items(*old(self)),
                self.latch == old(self).latch,
                forall|k: int| 0 <= k < i ==> self.peer_list.has_with(#[trigger] peers@[k], PeerQuality::Unreliable),
                forall|p: NodeId, x: PeerQuality| !peers@.contains(p) ==> (self.peer_list.has_with(p, x) <==> old(self).peer_list.has_with(p, x)),
            decreases peers@.len() - i,
        {
            let ghost before = *self;
            self.peer_list.disqualify_peer(peers[i]);
            proof {
                Self::lemma_wf_same_items(before, *self);
                assert forall|k: int| 0 <= k < i + 1 implies self.peer_list.has_with(#[trigger] peers@[k], PeerQuality::Unreliable) by {
                    if k < i {
                        assert(before.peer_list.has_with(peers@[k], PeerQuality::Unreliable));
                    }
                }
                assert forall|p: NodeId, x: PeerQuality| !peers@.contains(p) implies (self.peer_list.has_with(p, x) <==> old(self).peer_list.has_with(p, x)) by {
                    assert(p != peers@[i as int]);
                }
            }
            i = i + 1;
        }
        proof {
            assert forall|p: NodeId| peers@.contains(p) implies self.peer_list.has_with(p, PeerQuality::Unreliable) by {
                let k = choose|k: int| 0 <= k < peers@.len() && peers@[k] == p;
                assert(self.peer_list.has_with(peers@[k], PeerQuality::Unreliable));
            }
        }
    }

    /// Records what the global-state synchronizer reported (historical sync only). On success
    /// with the header's state root, the peers it found unreliable are marked so and the state
    /// moves to `HaveGlobalState`; on failure the peers it names are marked unreliable and the
    /// state stays, to be asked again once the latch expires.
    pub fn register_global_state_synced(
        &mut self,
        result: Result<GlobalStateSynced, GlobalStateSyncError>,
    ) -> (r: Result<(), BuilderError>)
        requires
            old(self).wf(),
        ensures
            final(self).wf(),
            final(self).config_same(*old(self)),
            rank(old(self).acquisition_state) <= rank(final(self).acquisition_state),
            Self::global_state_registered(*old(self), *final(self), result, r),

    {
        if self.acquisition_state != BlockAcquisitionState::HaveStrictFinalitySignatures
            || !self.should_fetch_execution_state {
            return Err(BuilderError::UnexpectedItem);
        }
        match result {
            Err(GlobalStateSyncError::TrieAccumulator(peers)) => {
                self.disqualify_peers(&peers);
                Ok(())
            },
            Ok(resp) => {
                if resp.state_root_hash != self.header.unwrap().state_root {
                    return Err(BuilderError::InvalidResult);
                }
                self.disqualify_peers(&resp.unreliable_peers);
                let ghost before = *self;
                self.acquisition_state = BlockAcquisitionState::HaveGlobalState;
                self.latch = Latch::Unlatched;
                proof {
                    Self::lemma_keep_sigs_deploys(before, *self);
                }
                Ok(())
            },
        }
    }

    /// Records that the block's execution results are stored (historical sync only); the
    /// builder is then synced.
    pub fn register_execution_results(&mut self, for_block: BlockHash, sender: Option<NodeId>) -> (r:
        Result<(), BuilderError>)
        requires
            old(self).wf(),
        ensures
            final(self).wf(),
            final(self).config_same(*old(self)),
            rank(old(self).acquisition_state) <= rank(final(self).acquisition_state),
            Self::execution_results_registered(*old(self), *final(self), for_block, sender, r),

    {
        if self.acquisition_state != BlockAcquisitionState::HaveGlobalState {
            return if self.acquisition_state == BlockAcquisitionState::Synced
                && self.should_fetch_execution_state && for_block == self.block_hash {
                Ok(())
            } else {
                Err(BuilderError::UnexpectedItem)
            };
        }
        if for_block != self.block_hash {
            self.mark_sender(sender, false);
            return Err(BuilderError::InvalidResult);
        }
        let ghost before = *self;
        self.acquisition_state = BlockAcquisitionState::HaveExecutionResults;
        self.latch = Latch::Unlatched;
        proof {
            Self::lemma_keep_sigs_deploys(before, *self);
        }
        self.advance();
        self.mark_sender(sender, true);
        Ok(())
    }

    /// The deploy ids among the first `k` of the body that are not held yet, in order.
    pub open spec fn missing_upto(self, k: int) -> Seq<DeployId>
        decreases k,
    {
        if k <= 0 {
            Seq::empty()
        } else if self.deploys_have@.contains(self.expected_id(k - 1)) {
            self.missing_upto(k - 1)
        } else {
            self.missing_upto(k - 1).push(self.expected_id(k - 1))
        }
    }

    pub open spec fn missing_deploys(self) -> Seq<DeployId> {
        self.missing_upto(self.deploy_count() as int)
    }

    pub open spec fn unsigned(self) -> Seq<PublicKey> {
        unsigned_keys(self.validators.unwrap().validators@, sig_keys(self.signatures@))
    }

    /// A sample that `qualified_peers_up_to` may draw for this builder.
    pub open spec fn valid_sample(self, peers: Seq<NodeId>) -> bool {
        let pool = self.peer_list.sample_pool();
        &&& peers.len() == min_nat(self.max_simultaneous_peers as nat, pool.len())
        &&& peers.no_duplicates()
        &&& forall|x: NodeId| peers.contains(x) ==> pool.contains(x)
    }

    /// Requests for more peers: from the accumulator, and on historical sync from the network.
    pub open spec fn need_peers(self, r: Seq<Effect>) -> bool {
        if self.should_fetch_execution_state {
            &&& r.len() == 2
            &&& r[0] == Effect::NetworkInfo(
                NetworkInfoRequest::FullyConnectedPeers { count: self.max_simultaneous_peers },
            )
            &&& r[1] == Effect::BlockAccumulator(
                BlockAccumulatorRequest::GetPeersForBlock { block_hash: self.block_hash },
            )
        } else {
            &&& r.len() == 1
            &&& r[0] == Effect::BlockAccumulator(
                BlockAccumulatorRequest::GetPeersForBlock { block_hash: self.block_hash },
            )
        }
    }

    /// Signature requests: the i-th unsigned validator's signature from the i-th peer.
    pub open spec fn signature_plan(self, r: Seq<Effect>, peers: Seq<NodeId>) -> bool {
        &&& r.len() == min_nat(peers.len(), self.unsigned().len())
        &&& forall|i: int|
            0 <= i < r.len() ==> r[i] == Effect::FinalitySignatureFetch(
                FetcherRequest::Fetch {
                    id: FinalitySignatureId {
                        block_hash: self.block_hash,
                        era_id: self.validators.unwrap().era_id,
                        public_key: self.unsigned()[i],
                    },
                    peer: peers[i],
                },
            )
    }

    /// Deploy requests: each peer is asked for a missing deploy, in turn.
    pub open spec fn deploy_plan(self, r: Seq<Effect>, peers: Seq<NodeId>) -> bool {
        let m = self.missing_deploys();
        &&& m.len() > 0
        &&& r.len() == peers.len()
        &&& forall|i: int|
            0 <= i < r.len() ==> r[i] == Effect::DeployFetch(
                FetcherRequest::Fetch { id: m[i % (m.len() as int)], peer: peers[i] },
            )
    }

    /// What `need_next` asks for in the builder's state, given the peers it drew.
    pub open spec fn planned(self, peers: Seq<NodeId>, r: Seq<Effect>) -> bool {
        match self.acquisition_state {
            BlockAcquisitionState::Executing | BlockAcquisitionState::Synced
            | BlockAcquisitionState::Failed | BlockAcquisitionState::HaveExecutionResults => r.len()
                == 0,
            BlockAcquisitionState::HaveFinalizedBlock => {
                &&& r.len() == 1
                &&& match r[0] {
                    Effect::EnqueueBlockForExecution { finalized_block } => finalized_block.same_as(
                        self.finalized_block.unwrap(),
                    ),
                    _ => false,
                }
            },
            BlockAcquisitionState::HaveStrictFinalitySignatures
                if !self.should_fetch_execution_state => r == seq![
                Effect::MakeBlockExecutable { block_hash: self.block_hash },
            ],
            _ => if peers.len() == 0 {
                self.need_peers(r)
            } else {
                match self.acquisition_state {
                    BlockAcquisitionState::HaveBlockHash => one_per_peer(
                        r,
                        peers,
                        FetchKind::BlockHeader,
                        self.block_hash,
                    ),
                    BlockAcquisitionState::HaveBlockHeader => if self.validators.is_none() {
                        one_per_peer(r, peers, FetchKind::SyncLeap, self.block_hash)
                    } else {
                        self.signature_plan(r, peers)
                    },
                    BlockAcquisitionState::HaveWeakFinalitySignatures => one_per_peer(
                        r,
                        peers,
                        FetchKind::Block,
                        self.block_hash,
                    ),
                    BlockAcquisitionState::HaveBlock => one_per_peer(
                        r,
                        peers,
                        FetchKind::ApprovalsHashes,
                        self.block_hash,
                    ),
                    BlockAcquisitionState::HaveApprovalsHashes => self.deploy_plan(r, peers),
                    BlockAcquisitionState::HaveAllDeploys => self.signature_plan(r, peers),
                    BlockAcquisitionState::HaveStrictFinalitySignatures => {
                        &&& r.len() == 1
                        &&& match r[0] {
                            Effect::SyncGlobalState { block_hash, state_root_hash, peers: v } => {
                                &&& block_hash == self.block_hash
                                &&& state_root_hash == self.header.unwrap().state_root
                                &&& v@ == peers
                            },
                            _ => false,
                        }
                    },
                    _ => r == seq![fetch_of(FetchKind::ExecutionResults, self.block_hash, peers[0])],
                }
            },
        }
    }

    fn fetches(peers: &Vec<NodeId>, kind: FetchKind, id: BlockHash) -> (r: Vec<Effect>)
        ensures
            one_per_peer(r@, peers@, kind, id),
    {
        let mut r: Vec<Effect> = Vec::new();
        let mut i: usize = 0;
        while i < peers.len()
            invariant
                i <= peers@.len(),
                r@.len() == i,
                forall|k: int| 0 <= k < i ==> r@[k] == fetch_of(kind, id, peers@[k]),
            decreases peers@.len() - i,
        {
            let peer = peers[i];
            let e = match kind {
                FetchKind::BlockHeader => Effect::BlockHeaderFetch(FetcherRequest::Fetch { id, peer }),
                FetchKind::SyncLeap => Effect::SyncLeapFetch(FetcherRequest::Fetch { id, peer }),
                FetchKind::Block => Effect::BlockFetch(FetcherRequest::Fetch { id, peer }),
                FetchKind::ApprovalsHashes => Effect::ApprovalsHashesFetch(
                    FetcherRequest::Fetch { id, peer },
                ),
                _ => Effect::ExecutionResultsFetch(FetcherRequest::Fetch { id, peer }),
            };
            r.push(e);
            i = i + 1;
        }
        r
    }

    fn unsigned_validators(&self) -> (r: Vec<PublicKey>)
        requires
            self.validators.is_some(),
        ensures
            r@ == self.unsigned(),
    {
        let keys = self.signer_keys();
        let v = self.validators.as_ref().unwrap();
        let mut r: Vec<PublicKey> = Vec::new();
        let mut i: usize = 0;
        while i < v.validators.len()
            invariant
                self.validators == Some(*v),
                keys@ == sig_keys(self.signatures@),
                i <= v.validators@.len(),
                r@ == unsigned_keys(v.validators@.subrange(0, i as int), keys@),
            decreases v.validators@.len() - i,
        {
            proof {
                assert(v.validators@.subrange(0, i as int + 1).drop_last() =~= v.validators@.subrange(
                    0,
                    i as int,
                ));
            }
            let k = v.validators[i].public_key;
            if !self.has_signer(k) {
                r.push(k);
            }
            i = i + 1;
        }
        assert(v.validators@.subrange(0, i as int) =~= v.validators@);
        r
    }

    fn signature_fetches(&self, peers: &Vec<NodeId>) -> (r: Vec<Effect>)
        requires
            self.validators.is_some(),
        ensures
            self.signature_plan(r@, peers@),
    {
        let unsigned = self.unsigned_validators();
        let era = self.validators.as_ref().unwrap().era_id;
        let mut r: Vec<Effect> = Vec::new();
        let mut i: usize = 0;
        while i < peers.len() && i < unsigned.len()
            invariant
                unsigned@ == self.unsigned(),
                era == self.validators.unwrap().era_id,
                i <= peers@.len(),
                i <= unsigned@.len(),
                r@.len() == i,
                forall|k: int|
                    0 <= k < i ==> r@[k] == Effect::FinalitySignatureFetch(
                        FetcherRequest::Fetch {
                            id: FinalitySignatureId {
                                block_hash: self.block_hash,
                                era_id: era,
                                public_key: unsigned@[k],
                            },
                            peer: peers@[k],
                        },
                    ),
            decreases peers@.len() - i,
        {
            let id = FinalitySignatureId {
                block_hash: self.block_hash,
                era_id: era,
                public_key: unsigned[i],
            };
            r.push(Effect::FinalitySignatureFetch(FetcherRequest::Fetch { id, peer: peers[i] }));
            i = i + 1;
        }
        r
    }

    fn missing_deploy_ids(&self) -> (r: Vec<DeployId>)
        requires
            self.wf(),
            self.block.is_some(),
            self.approvals_hashes.is_some(),
        ensures
            r@ == self.missing_deploys(),
    {
        let block = self.block.as_ref().unwrap();
        let ah = self.approvals_hashes.as_ref().unwrap();
        let n = block.body.deploy_hashes.len();
        let mut r: Vec<DeployId> = Vec::new();
        let mut i: usize = 0;
        while i < n
            invariant
                self.wf(),
                self.block == Some(*block),
                self.approvals_hashes == Some(*ah),
                n == self.deploy_count(),
                i <= n,
                r@ == self.missing_upto(i as int),
            decreases n - i,
        {
            let id = DeployId {
                deploy_hash: block.body.deploy_hashes[i],
                approvals_hash: ah.approvals_hashes[i],
            };
            assert(id == self.expected_id(i as int));
            if !self.holds_deploy(&id) {
                r.push(id);
            }
            i = i + 1;
        }
        r
    }

    fn deploy_fetches(&self, peers: &Vec<NodeId>) -> (r: Vec<Effect>)
        requires
            self.wf(),
            self.block.is_some(),
            self.approvals_hashes.is_some(),
            self.missing_deploys().len() > 0,
        ensures
            self.deploy_plan(r@, peers@),
    {
        let missing = self.missing_deploy_ids();
        let m = missing.len();
        let mut r: Vec<Effect> = Vec::new();
        let mut i: usize = 0;
        while i < peers.len()
            invariant
                missing@ == self.missing_deploys(),
                m == missing@.len(),
                m > 0,
                i <= peers@.len(),
                r@.len() == i,
                forall|k: int|
                    0 <= k < i ==> r@[k] == Effect::DeployFetch(
                        FetcherRequest::Fetch { id: missing@[k % (m as int)], peer: peers@[k] },
                    ),
            decreases peers@.len() - i,
        {
            let id = missing[i % m];
            r.push(Effect::DeployFetch(FetcherRequest::Fetch { id, peer: peers[i] }));
            i = i + 1;
        }
        r
    }

    proof fn lemma_missing_empty(self, k: int)
        requires
            0 <= k,
            self.missing_upto(k).len() == 0,
        ensures
            forall|i: int| 0 <= i < k ==> self.deploys_have@.contains(self.expected_id(i)),
        decreases k,
    {
        if k > 0 {
            self.lemma_missing_empty(k - 1);
        }
    }

    proof fn lemma_missing_member(self, k: int, d: DeployId)
        requires
            self.missing_upto(k).contains(d),
        ensures
            !self.deploys_have@.contains(d),
            exists|i: int| 0 <= i < k && self.expected_id(i) == d,
        decreases k,
    {
        if k > 0 {
            let m = self.missing_upto(k - 1);
            if m.contains(d) {
                self.lemma_missing_member(k - 1, d);
            } else if !self.deploys_have@.contains(self.expected_id(k - 1)) {
                let mp = m.push(self.expected_id(k - 1));
                assert(self.missing_upto(k) == mp);
                let q = choose|q: int| 0 <= q < mp.len() && #[trigger] mp[q] == d;
                if q < m.len() {
                    assert(m[q] == d);
                }
            }
        }
    }

    /// A builder waiting for deploys asks only for deploys that the approvals hashes name
    /// and that it does not hold yet, each from a different sampled peer.
    pub proof fn lemma_deploy_requests(self, peers: Seq<NodeId>, r: Seq<Effect>)
        requires
            self.wf(),
            self.acquisition_state == BlockAcquisitionState::HaveApprovalsHashes,
            self.peer_list.sample_pool().len() > 0,
            self.valid_sample(peers),
            self.planned(peers, r),
        ensures
            forall|i: int|
                0 <= i < r.len() ==> match #[trigger] r[i] {
                    Effect::DeployFetch(FetcherRequest::Fetch { id, peer }) => {
                        &&& self.expects_deploy(id)
                        &&& !self.deploys_have@.contains(id)
                        &&& self.peer_list.sample_pool().contains(peer)
                    },
                    _ => false,
                },
    {
        assert(peers.len() > 0);
        {
            let m = self.missing_deploys();
            assert forall|i: int| 0 <= i < r.len() implies match #[trigger] r[i] {
                Effect::DeployFetch(FetcherRequest::Fetch { id, peer }) => {
                    &&& self.expects_deploy(id)
                    &&& !self.deploys_have@.contains(id)
                    &&& self.peer_list.sample_pool().contains(peer)
                },
                _ => false,
            } by {
                let j = i % (m.len() as int);
                vstd::arithmetic::div_mod::lemma_mod_pos_bound(i, m.len() as int);
                let d = m[j];
                assert(r[i] == Effect::DeployFetch(FetcherRequest::Fetch { id: d, peer: peers[i] }));
                assert(m.contains(d));
                self.lemma_missing_member(self.deploy_count() as int, d);
                assert(peers.contains(peers[i]));
            }
        }
    }

    proof fn lemma_missing_same(a: BlockBuilder, b: BlockBuilder, k: int)
        requires
            a.deploys_have == b.deploys_have,
            a.block == b.block,
            a.approvals_hashes == b.approvals_hashes,
        ensures
            a.missing_upto(k) == b.missing_upto(k),
        decreases k,
    {
        if k > 0 {
            Self::lemma_missing_same(a, b, k - 1);
            assert(a.expected_id(k - 1) == b.expected_id(k - 1));
        }
    }

    /// The plan does not depend on the latch.
    proof fn lemma_planned_same(a: BlockBuilder, b: BlockBuilder, peers: Seq<NodeId>, r: Seq<Effect>)
        requires
            b.same_items_but_state(a),
            b.acquisition_state == a.acquisition_state,
            b.peer_list == a.peer_list,
            a.valid_sample(peers),
            a.planned(peers, r),
        ensures
            b.valid_sample(peers),
            b.planned(peers, r),
    {
        Self::lemma_missing_same(a, b, a.deploy_count() as int);
    }

    /// Whatever `planned` allows fetches a single kind of item, from at most
    /// `max_simultaneous_peers` peers.
    pub proof fn lemma_plan_bounded(self, peers: Seq<NodeId>, r: Seq<Effect>)
        requires
            self.valid_sample(peers),
            self.planned(peers, r),
        ensures
            forall|i: int|
                0 <= i < r.len() && (#[trigger] r[i].fetch_kind()).is_some() ==> {
                    &&& r.len() <= self.max_simultaneous_peers
                    &&& forall|j: int| 0 <= j < r.len() ==> r[j].fetch_kind() == r[i].fetch_kind()
                },
            forall|i: int|
                0 <= i < r.len() && (#[trigger] r[i].fetch_peer()).is_some() ==> {
                    &&& self.peer_list.sample_pool().contains(r[i].fetch_peer().unwrap())
                    &&& forall|j: int| 0 <= j < r.len() && j != i ==> r[j].fetch_peer() != r[i].fetch_peer()
                },
    {
        assert forall|i: int|
            0 <= i < r.len() && (#[trigger] r[i].fetch_peer()).is_some() implies {
                &&& self.peer_list.sample_pool().contains(r[i].fetch_peer().unwrap())
                &&& forall|j: int| 0 <= j < r.len() && j != i ==> r[j].fetch_peer() != r[i].fetch_peer()
            } by {
            assert(r[i].fetch_peer() == Some(peers[i]));
            assert(peers.contains(peers[i]));
            assert forall|j: int| 0 <= j < r.len() && j != i implies r[j].fetch_peer() != r[i].fetch_peer() by {
                assert(r[j].fetch_peer() == Some(peers[j]));
            }
        }
        assert forall|i: int|
            0 <= i < r.len() && (#[trigger] r[i].fetch_kind()).is_some() implies {
                &&& r.len() <= self.max_simultaneous_peers
                &&& forall|j: int| 0 <= j < r.len() ==> r[j].fetch_kind() == r[i].fetch_kind()
            } by {
            assert(peers.len() <= self.max_simultaneous_peers);
            assert forall|j: int| 0 <= j < r.len() implies r[j].fetch_kind() == r[i].fetch_kind() by {
            }
        }
    }

    /// The next requests for this block: none while latched; otherwise, after the transitions
    /// that need no new item, the requests that the state calls for, after which the builder
    /// is latched.
    pub fn need_next(&mut self, now: Timestamp) -> (r: Vec<Effect>)
        requires
            old(self).wf(),
        ensures
            final(self).wf(),
            final(self).config_same(*old(self)),
            rank(old(self).acquisition_state) <= rank(final(self).acquisition_state),
            old(self).latch.holds_at(now) ==> r@.len() == 0 && *final(self) == *old(self),
            !old(self).latch.holds_at(now) ==> {
                &&& final(self).acquisition_state == old(self).cascade(old(self).acquisition_state)
                &&& final(self).same_items_but_state(*old(self))
                &&& final(self).peer_list == old(self).peer_list
                &&& exists|peers: Seq<NodeId>|
                    final(self).valid_sample(peers) && final(self).planned(peers, r@)
                &&& final(self).latch == if r@.len() > 0 {
                    Latch::Latched { since: now, ttl: old(self).latch_ttl }
                } else {
                    old(self).latch
                }
            },
            forall|i: int|
                0 <= i < r@.len() && (#[trigger] r@[i].fetch_kind()).is_some() ==> {
                    &&& r@.len() <= old(self).max_simultaneous_peers
                    &&& forall|j: int| 0 <= j < r@.len() ==> r@[j].fetch_kind() == r@[i].fetch_kind()
                },
            forall|i: int|
                0 <= i < r@.len() && (#[trigger] r@[i].fetch_peer()).is_some() ==> {
                    &&& old(self).peer_list.sample_pool().contains(r@[i].fetch_peer().unwrap())
                    &&& forall|j: int|
                        0 <= j < r@.len() && j != i ==> r@[j].fetch_peer() != r@[i].fetch_peer()
                },
    {
        if self.latch.is_latched(now) {
            return Vec::new();
        }
        self.advance();
        let hash = self.block_hash;
        let max = self.max_simultaneous_peers;
        let s = self.acquisition_state;
        let peers = self.peer_list.qualified_peers_up_to(max);
        let ghost drawn = peers@;
        let mut effects: Vec<Effect> = Vec::new();
        match s {
            BlockAcquisitionState::Executing | BlockAcquisitionState::Synced
            | BlockAcquisitionState::Failed | BlockAcquisitionState::HaveExecutionResults => {},
            BlockAcquisitionState::HaveFinalizedBlock => {
                let fb = self.finalized_block.as_ref().unwrap().duplicate();
                effects.push(Effect::EnqueueBlockForExecution { finalized_block: fb });
            },
            BlockAcquisitionState::HaveStrictFinalitySignatures
                if !self.should_fetch_execution_state => {
                effects.push(Effect::MakeBlockExecutable { block_hash: hash });
                assert(effects@ =~= seq![Effect::MakeBlockExecutable { block_hash: hash }]);
            },
            _ => {
                if peers.len() == 0 {
                    if self.should_fetch_execution_state {
                        effects.push(
                            Effect::NetworkInfo(NetworkInfoRequest::FullyConnectedPeers { count: max }),
                        );
                    }
                    effects.push(
                        Effect::BlockAccumulator(
                            BlockAccumulatorRequest::GetPeersForBlock { block_hash: hash },
                        ),
                    );
                } else {
                    match s {
                        BlockAcquisitionState::HaveBlockHash => {
                            effects = Self::fetches(&peers, FetchKind::BlockHeader, hash);
                        },
                        BlockAcquisitionState::HaveBlockHeader => {
                            if self.validators.is_none() {
                                effects = Self::fetches(&peers, FetchKind::SyncLeap, hash);
                            } else {
                                effects = self.signature_fetches(&peers);
                            }
                        },
                        BlockAcquisitionState::HaveWeakFinalitySignatures => {
                            effects = Self::fetches(&peers, FetchKind::Block, hash);
                        },
                        BlockAcquisitionState::HaveBlock => {
                            effects = Self::fetches(&peers, FetchKind::ApprovalsHashes, hash);
                        },
                        BlockAcquisitionState::HaveApprovalsHashes => {
                            proof {
                                if self.missing_deploys().len() == 0 {
                                    self.lemma_missing_empty(self.deploy_count() as int);
                                }
                            }
                            effects = self.deploy_fetches(&peers);
                        },
                        BlockAcquisitionState::HaveAllDeploys => {
                            effects = self.signature_fetches(&peers);
                        },
                        BlockAcquisitionState::HaveStrictFinalitySignatures => {
                            let root = self.header.unwrap().state_root;
                            effects.push(
                                Effect::SyncGlobalState {
                                    block_hash: hash,
                                    state_root_hash: root,
                                    peers,
                                },
                            );
                        },
                        _ => {
                            let peer = peers[0];
                            effects.push(
                                Effect::ExecutionResultsFetch(FetcherRequest::Fetch { id: hash, peer }),
                            );
                            assert(effects@ =~= seq![
                                fetch_of(FetchKind::ExecutionResults, hash, peers@[0]),
                            ]);
                        },
                    }
                }
            },
        }
        proof {
            assert(self.valid_sample(drawn));
            assert(self.planned(drawn, effects@));
            self.lemma_plan_bounded(drawn, effects@);
        }
        if effects.len() > 0 {
            let ghost before = *self;
            self.latch = Latch::Latched { since: now, ttl: self.latch_ttl };
            proof {
                Self::lemma_wf_same_items(before, *self);
                Self::lemma_planned_same(before, *self, drawn, effects@);
            }
        }
        effects
    }

    pub fn wants(&self, id: &DeployId) -> (r: bool)
        requires
            self.wf(),
        ensures
            r == self.wants_deploy(*id),
    {
        self.expects(id) || self.holds_deploy(id)
    }

    /// Marks a peer unreliable: a fetch from it failed.
    pub fn disqualify_peer(&mut self, peer: NodeId)
        requires
            old(self).wf(),
        ensures
            final(self).wf(),
            final(self).config_same(*old(self)),
            final(self).same_items(*old(self)),
            final(self).latch == old(self).latch,
            peer_outcome(
                final(self).peer_list,
                old(self).peer_list,
                Some(peer),
                PeerQuality::Unreliable,
            ),
    {
        self.mark_sender(Some(peer), false)
    }
}

} // verus!
