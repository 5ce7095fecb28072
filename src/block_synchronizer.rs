use vstd::prelude::*;

use crate::block_builder::{
    rank, BlockAcquisitionState, BlockBuilder, Latch, BuilderError, GlobalStateSyncError,
    GlobalStateSynced,
};
use crate::peer_list::PeerQuality;
use crate::requests::Effect;
use crate::types::{
    ApprovalsHashes, Block, BlockHash, BlockHeader, Deploy, DeployId, FinalitySignature,
    FinalitySignatureId, FinalizedBlock, NodeId, Timestamp,
};
use crate::validator_matrix::{EraValidatorWeights, ValidatorMatrix};

verus! {

/// Default bound on the fetches of one kind that a builder has out at once.
pub const MAX_SIMULTANEOUS_PEERS: usize = 5;

/// Default time, in milliseconds, that a builder waits for answers before asking again.
pub const LATCH_TTL: u64 = 5000;

/// An item that a fetcher delivered, and where it came from.
#[derive(Clone, Debug)]
pub enum FetchedData<T> {
    FromStorage(T),
    FromPeer(T, NodeId),
}

/// Why a fetch from a peer failed.
#[derive(Clone, Copy, Debug, PartialEq, Eq, Structural)]
pub enum FetchError<Id> {
    Absent { id: Id, peer: NodeId },
    TimedOut { id: Id, peer: NodeId },
    Invalid { id: Id, peer: NodeId },
}

impl<Id> FetchError<Id> {
    pub open spec fn peer_spec(self) -> NodeId {
        match self {
            FetchError::Absent { peer, .. } => peer,
            FetchError::TimedOut { peer, .. } => peer,
            FetchError::Invalid { peer, .. } => peer,
        }
    }
}

/// Where the synchronizer stands on one lane.
#[derive(Clone, Copy, Debug, PartialEq, Eq, Structural)]
pub enum BlockSynchronizerProgress {
    Idle,
    Syncing(BlockHash),
    Executing(BlockHash),
    Synced(BlockHash),
    Failed(BlockHash),
}

pub open spec fn progress_of(b: Option<BlockBuilder>) -> BlockSynchronizerProgress {
    match b {
        None => BlockSynchronizerProgress::Idle,
        Some(b) => match b.acquisition_state {
            BlockAcquisitionState::Executing => BlockSynchronizerProgress::Executing(b.block_hash),
            BlockAcquisitionState::Synced => BlockSynchronizerProgress::Synced(b.block_hash),
            BlockAcquisitionState::Failed => BlockSynchronizerProgress::Failed(b.block_hash),
            _ => BlockSynchronizerProgress::Syncing(b.block_hash),
        },
    }
}

/// The synchronizer without builders.
pub open spec fn purged(s: BlockSynchronizer) -> BlockSynchronizer {
    BlockSynchronizer {
        forward: None,
        historical: None,
        validator_matrix: s.validator_matrix,
        max_simultaneous_peers: s.max_simultaneous_peers,
        latch_ttl: s.latch_ttl,
    }
}

/// Hosts at most one forward and one historical builder and routes results to them.
#[derive(Clone, Debug)]
pub struct BlockSynchronizer {
    pub forward: Option<BlockBuilder>,
    pub historical: Option<BlockBuilder>,
    pub validator_matrix: ValidatorMatrix,
    pub max_simultaneous_peers: usize,
    pub latch_ttl: u64,
}

impl BlockSynchronizer {
    pub open spec fn lane(self, historical: bool) -> Option<BlockBuilder> {
        if historical {
            self.historical
        } else {
            self.forward
        }
    }

    pub open spec fn lane_wf(self, historical: bool) -> bool {
        self.lane(historical) is Some ==> {
            let b = self.lane(historical).unwrap();
            &&& b.wf()
            &&& b.should_fetch_execution_state == historical
            &&& b.max_simultaneous_peers == self.max_simultaneous_peers
            &&& b.latch_ttl == self.latch_ttl
        }
    }

    pub open spec fn wf(self) -> bool {
        &&& self.max_simultaneous_peers > 0
        &&& self.validator_matrix.wf()
        &&& self.lane_wf(false)
        &&& self.lane_wf(true)
    }

    /// The lane, forward first, whose builder works on this block.
    pub open spec fn routes(self, block_hash: BlockHash, historical: bool) -> bool {
        &&& self.lane(historical) is Some
        &&& self.lane(historical).unwrap().block_hash == block_hash
        &&& historical ==> !(self.forward is Some && self.forward.unwrap().block_hash == block_hash)
    }

    /// The lane that results for this block go to, if any.
    pub open spec fn route(self, block_hash: BlockHash) -> Option<bool> {
        if self.routes_nowhere(block_hash) {
            None
        } else if self.routes(block_hash, false) {
            Some(false)
        } else {
            Some(true)
        }
    }

    pub open spec fn routes_nowhere(self, block_hash: BlockHash) -> bool {
        &&& !(self.forward is Some && self.forward.unwrap().block_hash == block_hash)
        &&& !(self.historical is Some && self.historical.unwrap().block_hash == block_hash)
    }

    /// Only the builder of one lane changed: it works on the same block, its state did not
    /// move back, and it is still well formed.
    pub open spec fn lane_stepped(self, old: BlockSynchronizer, historical: bool) -> bool {
        &&& self.lane(!historical) == old.lane(!historical)
        &&& self.validator_matrix == old.validator_matrix
        &&& self.max_simultaneous_peers == old.max_simultaneous_peers
        &&& self.latch_ttl == old.latch_ttl
        &&& self.lane(historical) is Some
        &&& old.lane(historical) is Some
        &&& self.lane(historical).unwrap().block_hash == old.lane(historical).unwrap().block_hash
        &&& rank(old.lane(historical).unwrap().acquisition_state) <= rank(
            self.lane(historical).unwrap().acquisition_state,
        )
    }

    /// Like `lane_stepped`, for a lane that may have moved while the other lane moved too.
    pub open spec fn lane_stepped_keeping(self, old: BlockSynchronizer, historical: bool) -> bool {
        &&& self.lane(historical) is Some
        &&& old.lane(historical) is Some
        &&& self.lane(historical).unwrap().block_hash == old.lane(historical).unwrap().block_hash
        &&& rank(old.lane(historical).unwrap().acquisition_state) <= rank(
            self.lane(historical).unwrap().acquisition_state,
        )
    }

    pub fn new(
        max_simultaneous_peers: usize,
        latch_ttl: u64,
        validator_matrix: ValidatorMatrix,
    ) -> (r: Self)
        requires
            max_simultaneous_peers > 0,
            validator_matrix.wf(),
        ensures
            r.wf(),
            r.forward is None,
            r.historical is None,
            r.validator_matrix == validator_matrix,
            r.max_simultaneous_peers == max_simultaneous_peers,
            r.latch_ttl == latch_ttl,
    {
        BlockSynchronizer {
            forward: None,
            historical: None,
            validator_matrix,
            max_simultaneous_peers,
            latch_ttl,
        }
    }

    pub fn forward_builder(&self) -> (r: Option<&BlockBuilder>)
        ensures
            match r {
                Some(b) => self.forward == Some(*b),
                None => self.forward is None,
            },
    {
        match &self.forward {
            Some(b) => Some(b),
            None => None,
        }
    }

    pub fn historical_builder(&self) -> (r: Option<&BlockBuilder>)
        ensures
            match r {
                Some(b) => self.historical == Some(*b),
                None => self.historical is None,
            },
    {
        match &self.historical {
            Some(b) => Some(b),
            None => None,
        }
    }

    fn progress(b: &Option<BlockBuilder>) -> (r: BlockSynchronizerProgress)
        ensures
            r == progress_of(*b),
    {
        match b {
            None => BlockSynchronizerProgress::Idle,
            Some(b) => match b.acquisition_state {
                BlockAcquisitionState::Executing => BlockSynchronizerProgress::Executing(
                    b.block_hash,
                ),
                BlockAcquisitionState::Synced => BlockSynchronizerProgress::Synced(b.block_hash),
                BlockAcquisitionState::Failed => BlockSynchronizerProgress::Failed(b.block_hash),
                _ => BlockSynchronizerProgress::Syncing(b.block_hash),
            },
        }
    }

    pub fn forward_progress(&self) -> (r: BlockSynchronizerProgress)
        ensures
            r == progress_of(self.forward),
    {
        Self::progress(&self.forward)
    }

    pub fn historical_progress(&self) -> (r: BlockSynchronizerProgress)
        ensures
            r == progress_of(self.historical),
    {
        Self::progress(&self.historical)
    }

    /// Whether registering `block_hash` on this lane is refused: an active builder of the lane
    /// already works on it.
    pub open spec fn refuses(self, block_hash: BlockHash, historical: bool) -> bool {
        &&& self.lane(historical) is Some
        &&& self.lane(historical).unwrap().block_hash == block_hash
        &&& self.lane(historical).unwrap().acquisition_state != BlockAcquisitionState::Failed
    }

    /// Installs a fresh builder for the block on its lane, unless the lane's active builder
    /// works on that block already; a builder for another block, or a failed one, is replaced.
    pub fn register_block_by_hash(&mut self, block_hash: BlockHash, historical: bool) -> (r: bool)
        requires
            old(self).wf(),
        ensures
            final(self).wf(),
            r == !old(self).refuses(block_hash, historical),
            !r ==> *final(self) == *old(self),
            r ==> {
                &&& final(self).lane(historical) is Some
                &&& final(self).lane(historical).unwrap().is_fresh(
                    block_hash,
                    historical,
                    old(self).max_simultaneous_peers,
                    old(self).latch_ttl,
                )
                &&& final(self).lane(!historical) == old(self).lane(!historical)
                &&& final(self).validator_matrix == old(self).validator_matrix
                &&& final(self).max_simultaneous_peers == old(self).max_simultaneous_peers
                &&& final(self).latch_ttl == old(self).latch_ttl
            },
    {
        let slot = if historical {
            &self.historical
        } else {
            &self.forward
        };
        let refused = match slot {
            Some(b) => b.block_hash == block_hash && !b.is_failed(),
            None => false,
        };
        if refused {
            return false;
        }
        let b = BlockBuilder::new(
            block_hash,
            historical,
            self.max_simultaneous_peers,
            self.latch_ttl,
        );
        if historical {
            self.historical = Some(b);
        } else {
            self.forward = Some(b);
        }
        true
    }

    /// Drops the forward builder; answers for it are ignored from now on.
    pub fn purge_forward(&mut self)
        ensures
            final(self).forward is None,
            final(self).historical == old(self).historical,
            final(self).validator_matrix == old(self).validator_matrix,
            final(self).max_simultaneous_peers == old(self).max_simultaneous_peers,
            final(self).latch_ttl == old(self).latch_ttl,
    {
        self.forward = None;
    }

    /// Drops the historical builder; answers for it are ignored from now on.
    pub fn purge_historical(&mut self)
        ensures
            final(self).historical is None,
            final(self).forward == old(self).forward,
            final(self).validator_matrix == old(self).validator_matrix,
            final(self).max_simultaneous_peers == old(self).max_simultaneous_peers,
            final(self).latch_ttl == old(self).latch_ttl,
    {
        self.historical = None;
    }

    /// Drops both builders.
    pub fn purge(&mut self)
        ensures
            *final(self) == purged(*old(self)),
    {
        self.forward = None;
        self.historical = None;
    }

    /// The lane, forward first, whose builder wants this deploy.
    pub open spec fn routes_deploy(self, id: DeployId, historical: bool) -> bool {
        &&& self.lane(historical) is Some
        &&& self.lane(historical).unwrap().wants_deploy(id)
        &&& historical ==> !(self.forward is Some && self.forward.unwrap().wants_deploy(id))
    }

    /// What every handler of a result leaves behind: at most the routed lane changed, and the
    /// only effects are disconnections.
    pub open spec fn handled(self, old: BlockSynchronizer, routed: Option<bool>, r: Seq<Effect>) -> bool {
        &&& self.wf()
        &&& routed is None ==> self == old && r.len() == 0
        &&& routed is Some ==> self.lane_stepped(old, routed.unwrap())
        &&& forall|i: int| 0 <= i < r.len() ==> r[i] is DisconnectFromPeer
    }

    fn lane_of(&self, block_hash: BlockHash) -> (r: Option<bool>)
        ensures
            match r {
                Some(h) => self.routes(block_hash, h),
                None => self.routes_nowhere(block_hash),
            },
    {
        match &self.forward {
            Some(b) => if b.block_hash == block_hash {
                return Some(false);
            },
            None => {},
        }
        match &self.historical {
            Some(b) => if b.block_hash == block_hash {
                return Some(true);
            },
            None => {},
        }
        None
    }

    fn lane_of_deploy(&self, id: &DeployId) -> (r: Option<bool>)
        requires
            self.wf(),
        ensures
            match r {
                Some(h) => self.routes_deploy(*id, h),
                None => !self.routes_deploy(*id, false) && !self.routes_deploy(*id, true),
            },
    {
        match &self.forward {
            Some(b) => if b.wants(id) {
                return Some(false);
            },
            None => {},
        }
        match &self.historical {
            Some(b) => if b.wants(id) {
                return Some(true);
            },
            None => {},
        }
        None
    }

    fn take_lane(&mut self, historical: bool) -> (b: BlockBuilder)
        requires
            old(self).lane(historical) is Some,
        ensures
            b == old(self).lane(historical).unwrap(),
            final(self).lane(!historical) == old(self).lane(!historical),
            final(self).validator_matrix == old(self).validator_matrix,
            final(self).max_simultaneous_peers == old(self).max_simultaneous_peers,
            final(self).latch_ttl == old(self).latch_ttl,
    {
        if historical {
            self.historical.take().unwrap()
        } else {
            self.forward.take().unwrap()
        }
    }

    fn put_lane(&mut self, historical: bool, b: BlockBuilder)
        ensures
            final(self).lane(historical) == Some(b),
            final(self).lane(!historical) == old(self).lane(!historical),
            final(self).validator_matrix == old(self).validator_matrix,
            final(self).max_simultaneous_peers == old(self).max_simultaneous_peers,
            final(self).latch_ttl == old(self).latch_ttl,
    {
        if historical {
            self.historical = Some(b);
        } else {
            self.forward = Some(b);
        }
    }

    /// A failed fetch: the peer is marked unreliable; one that sent an invalid item is also
    /// disconnected.
    fn fetch_failed<Id>(b: &mut BlockBuilder, err: FetchError<Id>) -> (r: Vec<Effect>)
        requires
            old(b).wf(),
        ensures
            final(b).wf(),
            final(b).config_same(*old(b)),
            final(b).same_items(*old(b)),
            final(b).peer_list.has_with(err.peer_spec(), PeerQuality::Unreliable),
            r@ == if err is Invalid {
                seq![Effect::DisconnectFromPeer { peer: err.peer_spec() }]
            } else {
                Seq::<Effect>::empty()
            },
    {
        let (peer, invalid) = match err {
            FetchError::Absent { peer, .. } => (peer, false),
            FetchError::TimedOut { peer, .. } => (peer, false),
            FetchError::Invalid { peer, .. } => (peer, true),
        };
        b.disqualify_peer(peer);
        let mut r: Vec<Effect> = Vec::new();
        if invalid {
            r.push(Effect::DisconnectFromPeer { peer });
            assert(r@ =~= seq![Effect::DisconnectFromPeer { peer }]);
        } else {
            assert(r@ =~= Seq::<Effect>::empty());
        }
        r
    }

    /// A peer whose item the builder refused as invalid is disconnected.
    fn disconnect_if_invalid(res: Result<(), BuilderError>, sender: Option<NodeId>) -> (r: Vec<
        Effect,
    >)
        ensures
            r@ == Self::item_outcome(res, sender),
    {
        let mut r: Vec<Effect> = Vec::new();
        match (res, sender) {
            (Err(e), Some(peer)) => if e != BuilderError::UnexpectedItem {
                r.push(Effect::DisconnectFromPeer { peer });
                assert(r@ =~= seq![Effect::DisconnectFromPeer { peer }]);
            },
            _ => {},
        }
        r
    }







    /// Adds peers to the builder of the block.
    pub fn register_peers(&mut self, block_hash: BlockHash, peers: &Vec<NodeId>)
        requires
            old(self).wf(),
        ensures
            final(self).handled(*old(self), old(self).route(block_hash), Seq::<Effect>::empty()),
            old(self).route(block_hash) is Some ==> BlockBuilder::peers_registered(
                old(self).lane(old(self).route(block_hash).unwrap()).unwrap(),
                final(self).lane(old(self).route(block_hash).unwrap()).unwrap(),
                peers@,
            ),
    {
        let historical = match self.lane_of(block_hash) {
            None => {
                return;
            },
            Some(h) => h,
        };
        let mut b = self.take_lane(historical);
        b.register_peers(peers);
        self.put_lane(historical, b);
    }

    /// Records an era's validator weights and hands them to the builders waiting for them.
    /// Returns false where the matrix refused the weights.
    pub fn register_era_validator_weights(&mut self, weights: EraValidatorWeights) -> (r: bool)
        requires
            old(self).wf(),
        ensures
            final(self).wf(),
            ValidatorMatrix::weights_registered(
                old(self).validator_matrix,
                final(self).validator_matrix,
                weights,
                r,
            ),
            final(self).max_simultaneous_peers == old(self).max_simultaneous_peers,
            final(self).latch_ttl == old(self).latch_ttl,
            old(self).forward is Some <==> final(self).forward is Some,
            old(self).historical is Some <==> final(self).historical is Some,
            old(self).forward is Some ==> final(self).lane_stepped_keeping(*old(self), false)
                && exists|x: bool|
                BlockBuilder::era_weights_registered(
                    old(self).forward.unwrap(),
                    final(self).forward.unwrap(),
                    final(self).validator_matrix,
                    x,
                ),
            old(self).historical is Some ==> final(self).lane_stepped_keeping(*old(self), true)
                && exists|x: bool|
                BlockBuilder::era_weights_registered(
                    old(self).historical.unwrap(),
                    final(self).historical.unwrap(),
                    final(self).validator_matrix,
                    x,
                ),
    {
        let r = self.validator_matrix.register_validator_weights(weights);
        if self.forward.is_some() {
            let mut b = self.take_lane(false);
            b.register_era_validator_weights(&self.validator_matrix);
            self.put_lane(false, b);
        }
        if self.historical.is_some() {
            let mut b = self.take_lane(true);
            b.register_era_validator_weights(&self.validator_matrix);
            self.put_lane(true, b);
        }
        r
    }





    /// The disconnection that an item refused as invalid, from a peer, calls for.
    pub open spec fn item_outcome(res: Result<(), BuilderError>, sender: Option<NodeId>) -> Seq<Effect> {
        match sender {
            Some(p) => match res {
                Err(e) => if e != BuilderError::UnexpectedItem {
                    seq![Effect::DisconnectFromPeer { peer: p }]
                } else {
                    Seq::empty()
                },
                Ok(_) => Seq::empty(),
            },
            None => Seq::empty(),
        }
    }

    /// A failed fetch: the peer is unreliable afterwards, the builder's items are kept, and a
    /// peer that sent an invalid item is disconnected.
    pub open spec fn fetch_failed_post<Id>(
        old: BlockBuilder,
        new: BlockBuilder,
        err: FetchError<Id>,
        r: Seq<Effect>,
    ) -> bool {
        &&& new.same_items(old)
        &&& new.peer_list.has_with(err.peer_spec(), PeerQuality::Unreliable)
        &&& r == if err is Invalid {
            seq![Effect::DisconnectFromPeer { peer: err.peer_spec() }]
        } else {
            Seq::<Effect>::empty()
        }
    }

    /// Routes a fetched block header, or a failed header fetch, to the builder of the block.
    pub fn block_header_fetched(
        &mut self,
        block_hash: BlockHash,
        result: Result<FetchedData<BlockHeader>, FetchError<BlockHash>>,
    ) -> (r: Vec<Effect>)
        requires
            old(self).wf(),
        ensures
            final(self).handled(*old(self), old(self).route(block_hash), r@),
            old(self).route(block_hash) is Some ==> {
                let l = old(self).route(block_hash).unwrap();
                let ob = old(self).lane(l).unwrap();
                let nb = final(self).lane(l).unwrap();
                let m = old(self).validator_matrix;
                match result {
                    Ok(FetchedData::FromStorage(item)) => exists|
                        res: Result<(), BuilderError>,
                        mid: BlockBuilder,
                        x: bool,
                    |
                        BlockBuilder::header_registered(ob, mid, item, None, res)
                            && BlockBuilder::era_weights_registered(mid, nb, m, x) && r@
                            == Self::item_outcome(res, None),
                    Ok(FetchedData::FromPeer(item, peer)) => exists|
                        res: Result<(), BuilderError>,
                        mid: BlockBuilder,
                        x: bool,
                    |
                        BlockBuilder::header_registered(ob, mid, item, Some(peer), res)
                            && BlockBuilder::era_weights_registered(mid, nb, m, x) && r@
                            == Self::item_outcome(res, Some(peer)),
                    Err(err) => Self::fetch_failed_post(ob, nb, err, r@),
                }
            },
    {
        let historical = match self.lane_of(block_hash) {
            None => {
                return Vec::new();
            },
            Some(h) => h,
        };
        let mut b = self.take_lane(historical);
        let ghost ob = b;
        let r = match result {
            Ok(FetchedData::FromStorage(item)) => {
                let res = b.register_block_header(item, None);
                let ghost mid = b;
                let x = b.register_era_validator_weights(&self.validator_matrix);
                assert(BlockBuilder::header_registered(ob, mid, item, None, res)
                    && BlockBuilder::era_weights_registered(mid, b, self.validator_matrix, x));
                Self::disconnect_if_invalid(res, None)
            },
            Ok(FetchedData::FromPeer(item, peer)) => {
                let res = b.register_block_header(item, Some(peer));
                let ghost mid = b;
                let x = b.register_era_validator_weights(&self.validator_matrix);
                assert(BlockBuilder::header_registered(ob, mid, item, Some(peer), res)
                    && BlockBuilder::era_weights_registered(mid, b, self.validator_matrix, x));
                Self::disconnect_if_invalid(res, Some(peer))
            },
            Err(err) => Self::fetch_failed(&mut b, err),
        };
        self.put_lane(historical, b);
        r
    }

    /// Routes a fetched block, or a failed block fetch, to the builder of the block.
    pub fn block_fetched(
        &mut self,
        block_hash: BlockHash,
        result: Result<FetchedData<Block>, FetchError<BlockHash>>,
    ) -> (r: Vec<Effect>)
        requires
            old(self).wf(),
        ensures
            final(self).handled(*old(self), old(self).route(block_hash), r@),
            old(self).route(block_hash) is Some ==> {
                let l = old(self).route(block_hash).unwrap();
                let ob = old(self).lane(l).unwrap();
                let nb = final(self).lane(l).unwrap();
                match result {
                    Ok(FetchedData::FromStorage(item)) => exists|res: Result<(), BuilderError>|
                        BlockBuilder::block_registered(ob, nb, item, None, res) && r@ == Self::item_outcome(
                            res,
                            None,
                        ),
                    Ok(FetchedData::FromPeer(item, peer)) => exists|res: Result<(), BuilderError>|
                        BlockBuilder::block_registered(ob, nb, item, Some(peer), res) && r@
                            == Self::item_outcome(res, Some(peer)),
                    Err(err) => Self::fetch_failed_post(ob, nb, err, r@),
                }
            },
    {
        let historical = match self.lane_of(block_hash) {
            None => {
                return Vec::new();
            },
            Some(h) => h,
        };
        let mut b = self.take_lane(historical);
        let r = match result {
            Ok(FetchedData::FromStorage(item)) => {
                let res = b.register_block(item, None);
                Self::disconnect_if_invalid(res, None)
            },
            Ok(FetchedData::FromPeer(item, peer)) => {
                let res = b.register_block(item, Some(peer));
                Self::disconnect_if_invalid(res, Some(peer))
            },
            Err(err) => Self::fetch_failed(&mut b, err),
        };
        self.put_lane(historical, b);
        r
    }

    /// Routes a fetched finality signature, or a failed fetch, to the builder of the block.
    pub fn finality_signature_fetched(
        &mut self,
        block_hash: BlockHash,
        result: Result<FetchedData<FinalitySignature>, FetchError<FinalitySignatureId>>,
    ) -> (r: Vec<Effect>)
        requires
            old(self).wf(),
        ensures
            final(self).handled(*old(self), old(self).route(block_hash), r@),
            old(self).route(block_hash) is Some ==> {
                let l = old(self).route(block_hash).unwrap();
                let ob = old(self).lane(l).unwrap();
                let nb = final(self).lane(l).unwrap();
                match result {
                    Ok(FetchedData::FromStorage(item)) => exists|res: Result<(), BuilderError>|
                        BlockBuilder::signature_registered(ob, nb, item, None, res) && r@ == Self::item_outcome(
                            res,
                            None,
                        ),
                    Ok(FetchedData::FromPeer(item, peer)) => exists|res: Result<(), BuilderError>|
                        BlockBuilder::signature_registered(ob, nb, item, Some(peer), res) && r@
                            == Self::item_outcome(res, Some(peer)),
                    Err(err) => Self::fetch_failed_post(ob, nb, err, r@),
                }
            },
    {
        let historical = match self.lane_of(block_hash) {
            None => {
                return Vec::new();
            },
            Some(h) => h,
        };
        let mut b = self.take_lane(historical);
        let r = match result {
            Ok(FetchedData::FromStorage(item)) => {
                let res = b.register_finality_signature(item, None);
                Self::disconnect_if_invalid(res, None)
            },
            Ok(FetchedData::FromPeer(item, peer)) => {
                let res = b.register_finality_signature(item, Some(peer));
                Self::disconnect_if_invalid(res, Some(peer))
            },
            Err(err) => Self::fetch_failed(&mut b, err),
        };
        self.put_lane(historical, b);
        r
    }

    /// Routes fetched approvals hashes, or a failed fetch, to the builder of the block.
    pub fn approvals_hashes_fetched(
        &mut self,
        block_hash: BlockHash,
        result: Result<FetchedData<ApprovalsHashes>, FetchError<BlockHash>>,
    ) -> (r: Vec<Effect>)
        requires
            old(self).wf(),
        ensures
            final(self).handled(*old(self), old(self).route(block_hash), r@),
            old(self).route(block_hash) is Some ==> {
                let l = old(self).route(block_hash).unwrap();
                let ob = old(self).lane(l).unwrap();
                let nb = final(self).lane(l).unwrap();
                match result {
                    Ok(FetchedData::FromStorage(item)) => exists|res: Result<(), BuilderError>|
                        BlockBuilder::approvals_hashes_registered(ob, nb, item, None, res) && r@ == Self::item_outcome(
                            res,
                            None,
                        ),
                    Ok(FetchedData::FromPeer(item, peer)) => exists|res: Result<(), BuilderError>|
                        BlockBuilder::approvals_hashes_registered(ob, nb, item, Some(peer), res) && r@
                            == Self::item_outcome(res, Some(peer)),
                    Err(err) => Self::fetch_failed_post(ob, nb, err, r@),
                }
            },
    {
        let historical = match self.lane_of(block_hash) {
            None => {
                return Vec::new();
            },
            Some(h) => h,
        };
        let mut b = self.take_lane(historical);
        let r = match result {
            Ok(FetchedData::FromStorage(item)) => {
                let res = b.register_approvals_hashes(item, None);
                Self::disconnect_if_invalid(res, None)
            },
            Ok(FetchedData::FromPeer(item, peer)) => {
                let res = b.register_approvals_hashes(item, Some(peer));
                Self::disconnect_if_invalid(res, Some(peer))
            },
            Err(err) => Self::fetch_failed(&mut b, err),
        };
        self.put_lane(historical, b);
        r
    }

    /// Routes fetched execution results, named by their block, or a failed fetch, to the builder of the block.
    pub fn execution_results_fetched(
        &mut self,
        block_hash: BlockHash,
        result: Result<FetchedData<BlockHash>, FetchError<BlockHash>>,
    ) -> (r: Vec<Effect>)
        requires
            old(self).wf(),
        ensures
            final(self).handled(*old(self), old(self).route(block_hash), r@),
            old(self).route(block_hash) is Some ==> {
                let l = old(self).route(block_hash).unwrap();
                let ob = old(self).lane(l).unwrap();
                let nb = final(self).lane(l).unwrap();
                match result {
                    Ok(FetchedData::FromStorage(item)) => exists|res: Result<(), BuilderError>|
                        BlockBuilder::execution_results_registered(ob, nb, item, None, res) && r@ == Self::item_outcome(
                            res,
                            None,
                        ),
                    Ok(FetchedData::FromPeer(item, peer)) => exists|res: Result<(), BuilderError>|
                        BlockBuilder::execution_results_registered(ob, nb, item, Some(peer), res) && r@
                            == Self::item_outcome(res, Some(peer)),
                    Err(err) => Self::fetch_failed_post(ob, nb, err, r@),
                }
            },
    {
        let historical = match self.lane_of(block_hash) {
            None => {
                return Vec::new();
            },
            Some(h) => h,
        };
        let mut b = self.take_lane(historical);
        let r = match result {
            Ok(FetchedData::FromStorage(item)) => {
                let res = b.register_execution_results(item, None);
                Self::disconnect_if_invalid(res, None)
            },
            Ok(FetchedData::FromPeer(item, peer)) => {
                let res = b.register_execution_results(item, Some(peer));
                Self::disconnect_if_invalid(res, Some(peer))
            },
            Err(err) => Self::fetch_failed(&mut b, err),
        };
        self.put_lane(historical, b);
        r
    }

    /// Routes a fetched deploy, or a failed deploy fetch, to the builder that wants it.
    pub fn deploy_fetched(
        &mut self,
        id: DeployId,
        result: Result<FetchedData<Deploy>, FetchError<DeployId>>,
    ) -> (r: Vec<Effect>)
        requires
            old(self).wf(),
        ensures
            final(self).handled(*old(self), (if old(self).routes_deploy(id, false) {
                Some(false)
            } else if old(self).routes_deploy(id, true) {
                Some(true)
            } else {
                None
            }), r@),
            (if old(self).routes_deploy(id, false) {
                Some(false)
            } else if old(self).routes_deploy(id, true) {
                Some(true)
            } else {
                None
            }) is Some ==> {
                let l = (if old(self).routes_deploy(id, false) {
                Some(false)
            } else if old(self).routes_deploy(id, true) {
                Some(true)
            } else {
                None
            }).unwrap();
                let ob = old(self).lane(l).unwrap();
                let nb = final(self).lane(l).unwrap();
                match result {
                    Ok(FetchedData::FromStorage(item)) => exists|res: Result<(), BuilderError>|
                        BlockBuilder::deploy_registered(ob, nb, item, None, res) && r@ == Self::item_outcome(
                            res,
                            None,
                        ),
                    Ok(FetchedData::FromPeer(item, peer)) => exists|res: Result<(), BuilderError>|
                        BlockBuilder::deploy_registered(ob, nb, item, Some(peer), res) && r@
                            == Self::item_outcome(res, Some(peer)),
                    Err(err) => Self::fetch_failed_post(ob, nb, err, r@),
                }
            },
    {
        let historical = match self.lane_of_deploy(&id) {
            None => {
                return Vec::new();
            },
            Some(h) => h,
        };
        let mut b = self.take_lane(historical);
        let r = match result {
            Ok(FetchedData::FromStorage(item)) => {
                let res = b.register_deploy(&item, None);
                Self::disconnect_if_invalid(res, None)
            },
            Ok(FetchedData::FromPeer(item, peer)) => {
                let res = b.register_deploy(&item, Some(peer));
                Self::disconnect_if_invalid(res, Some(peer))
            },
            Err(err) => Self::fetch_failed(&mut b, err),
        };
        self.put_lane(historical, b);
        r
    }

    /// Records the outcome of making the forward block executable.
    pub fn made_finalized_block(&mut self, block_hash: BlockHash, result: Option<FinalizedBlock>)
        requires
            old(self).wf(),
        ensures
            final(self).handled(*old(self), old(self).route(block_hash), Seq::<Effect>::empty()),
            old(self).route(block_hash) is Some ==> exists|res: Result<(), BuilderError>|
                BlockBuilder::finalized_block_registered(
                    old(self).lane(old(self).route(block_hash).unwrap()).unwrap(),
                    final(self).lane(old(self).route(block_hash).unwrap()).unwrap(),
                    result, res,
                ),
    {
        let historical = match self.lane_of(block_hash) {
            None => {
                return;
            },
            Some(h) => h,
        };
        let mut b = self.take_lane(historical);
        let _ = b.register_made_finalized_block(result);
        self.put_lane(historical, b);
    }

    /// Records that the block was enqueued for execution.
    pub fn block_execution_enqueued(&mut self, block_hash: BlockHash)
        requires
            old(self).wf(),
        ensures
            final(self).handled(*old(self), old(self).route(block_hash), Seq::<Effect>::empty()),
            old(self).route(block_hash) is Some ==> exists|res: Result<(), BuilderError>|
                BlockBuilder::execution_enqueued_registered(
                    old(self).lane(old(self).route(block_hash).unwrap()).unwrap(),
                    final(self).lane(old(self).route(block_hash).unwrap()).unwrap(),
                    res,
                ),
    {
        let historical = match self.lane_of(block_hash) {
            None => {
                return;
            },
            Some(h) => h,
        };
        let mut b = self.take_lane(historical);
        let _ = b.register_block_execution_enqueued();
        self.put_lane(historical, b);
    }

    /// Records that the block was executed.
    pub fn block_executed(&mut self, block_hash: BlockHash)
        requires
            old(self).wf(),
        ensures
            final(self).handled(*old(self), old(self).route(block_hash), Seq::<Effect>::empty()),
            old(self).route(block_hash) is Some ==> exists|res: Result<(), BuilderError>|
                BlockBuilder::executed_registered(
                    old(self).lane(old(self).route(block_hash).unwrap()).unwrap(),
                    final(self).lane(old(self).route(block_hash).unwrap()).unwrap(),
                    res,
                ),
    {
        let historical = match self.lane_of(block_hash) {
            None => {
                return;
            },
            Some(h) => h,
        };
        let mut b = self.take_lane(historical);
        let _ = b.register_block_executed();
        self.put_lane(historical, b);
    }

    /// Records what the global-state synchronizer reported for the block.
    pub fn global_state_synced(&mut self, block_hash: BlockHash,
        result: Result<GlobalStateSynced, GlobalStateSyncError>)
        requires
            old(self).wf(),
        ensures
            final(self).handled(*old(self), old(self).route(block_hash), Seq::<Effect>::empty()),
            old(self).route(block_hash) is Some ==> exists|res: Result<(), BuilderError>|
                BlockBuilder::global_state_registered(
                    old(self).lane(old(self).route(block_hash).unwrap()).unwrap(),
                    final(self).lane(old(self).route(block_hash).unwrap()).unwrap(),
                    result, res,
                ),
    {
        let historical = match self.lane_of(block_hash) {
            None => {
                return;
            },
            Some(h) => h,
        };
        let mut b = self.take_lane(historical);
        let _ = b.register_global_state_synced(result);
        self.put_lane(historical, b);
    }

    /// What one lane contributed to `need_next`: nothing where the lane is empty or latched;
    /// otherwise its builder's plan, fetching one kind of item from at most
    /// `max_simultaneous_peers` peers.
    pub open spec fn lane_plan(
        self,
        old: BlockSynchronizer,
        historical: bool,
        part: Seq<Effect>,
        now: Timestamp,
    ) -> bool {
        match old.lane(historical) {
            None => part.len() == 0 && self.lane(historical) is None,
            Some(b) => {
                &&& self.lane(historical) is Some
                &&& self.lane(historical).unwrap().block_hash == b.block_hash
                &&& rank(b.acquisition_state) <= rank(
                    self.lane(historical).unwrap().acquisition_state,
                )
                &&& b.latch.holds_at(now) ==> part.len() == 0 && self.lane(historical) == old.lane(
                    historical,
                )
                &&& !b.latch.holds_at(now) ==> {
                    let nb = self.lane(historical).unwrap();
                    &&& nb.acquisition_state == b.cascade(b.acquisition_state)
                    &&& nb.same_items_but_state(b)
                    &&& nb.peer_list == b.peer_list
                    &&& nb.latch == if part.len() > 0 {
                        Latch::Latched { since: now, ttl: b.latch_ttl }
                    } else {
                        b.latch
                    }
                    &&& exists|peers: Seq<NodeId>| nb.valid_sample(peers) && nb.planned(peers, part)
                }
                &&& forall|i: int|
                    0 <= i < part.len() && (#[trigger] part[i].fetch_kind()).is_some() ==> {
                        &&& part.len() <= self.max_simultaneous_peers
                        &&& forall|j: int|
                            0 <= j < part.len() ==> part[j].fetch_kind() == part[i].fetch_kind()
                    }
                &&& forall|i: int|
                    0 <= i < part.len() && (#[trigger] part[i].fetch_peer()).is_some() ==> {
                        &&& b.peer_list.sample_pool().contains(part[i].fetch_peer().unwrap())
                        &&& forall|j: int|
                            0 <= j < part.len() && j != i ==> part[j].fetch_peer() != part[i].fetch_peer()
                    }
            },
        }
    }

    /// The next requests of both lanes: the forward builder's, then the historical one's.
    pub fn need_next(&mut self, now: Timestamp) -> (r: Vec<Effect>)
        requires
            old(self).wf(),
        ensures
            final(self).wf(),
            final(self).validator_matrix == old(self).validator_matrix,
            final(self).max_simultaneous_peers == old(self).max_simultaneous_peers,
            final(self).latch_ttl == old(self).latch_ttl,
            exists|k: int|
                0 <= k <= r@.len() && final(self).lane_plan(
                    *old(self),
                    false,
                    r@.subrange(0, k),
                    now,
                ) && final(self).lane_plan(*old(self), true, r@.subrange(k, r@.len() as int), now),
    {
        let mut r: Vec<Effect> = Vec::new();
        if self.forward.is_some() {
            let mut b = self.take_lane(false);
            let mut e = b.need_next(now);
            self.put_lane(false, b);
            r.append(&mut e);
        }
        let ghost k = r@.len() as int;
        let ghost first = r@;
        let ghost mut second: Seq<Effect> = Seq::empty();
        if self.historical.is_some() {
            let mut b = self.take_lane(true);
            let mut e = b.need_next(now);
            proof {
                second = e@;
            }
            self.put_lane(true, b);
            r.append(&mut e);
        }
        assert(r@.subrange(k, r@.len() as int) =~= second);
        assert(r@.subrange(0, k) =~= first);
        assert(self.lane_plan(*old(self), false, r@.subrange(0, k), now));
        assert(self.lane_plan(*old(self), true, r@.subrange(k, r@.len() as int), now));
        r
    }
}

/// Purging and then registering a block, whatever state the synchronizer was in (a synced
/// block included), is accepted and leaves the lane with a builder that knows only the block
/// hash: after `purge`, `register_block_by_hash` is never refused, and its result is the fresh
/// builder that `BlockBuilder::new` makes.
pub proof fn lemma_purge_then_register_is_fresh(
    s: BlockSynchronizer,
    block_hash: BlockHash,
    historical: bool,
)
    requires
        s.wf(),
    ensures
        purged(s).wf(),
        !purged(s).refuses(block_hash, historical),
        purged(s).lane(!historical) is None,
{
}

} // verus!
