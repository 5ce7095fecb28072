use vstd::prelude::*;

use crate::types::{
    BlockHash, BlockHeader, DeployHash, DeployId, Digest, FinalitySignatureId, FinalizedBlock,
    Height, NodeId, Timestamp,
};

verus! {

/// Asks a fetcher for an item: from local storage, else from `peer`.
#[derive(Clone, Copy, Debug, PartialEq, Eq, Structural)]
pub enum FetcherRequest<I, Id> {
    Fetch { id: Id, peer: I },
}

impl<I, Id> FetcherRequest<I, Id> {
    pub open spec fn id_spec(self) -> Id {
        match self {
            FetcherRequest::Fetch { id, .. } => id,
        }
    }

    pub open spec fn peer_spec(self) -> I {
        match self {
            FetcherRequest::Fetch { peer, .. } => peer,
        }
    }
}

/// Asks the networking layer about peers.
#[derive(Clone, Copy, Debug, PartialEq, Eq, Structural)]
pub enum NetworkInfoRequest {
    /// A random sample of up to `count` fully connected peers.
    FullyConnectedPeers { count: usize },
}

/// Asks the block accumulator about a block.
#[derive(Clone, Copy, Debug, PartialEq, Eq, Structural)]
pub enum BlockAccumulatorRequest {
    /// The peers from which the accumulator heard of the block.
    GetPeersForBlock { block_hash: BlockHash },
}

/// What a builder asks of the world; the host performs it and reports back with an event.
#[derive(Clone, Debug)]
pub enum Effect {
    NetworkInfo(NetworkInfoRequest),
    BlockAccumulator(BlockAccumulatorRequest),
    BlockHeaderFetch(FetcherRequest<NodeId, BlockHash>),
    SyncLeapFetch(FetcherRequest<NodeId, BlockHash>),
    FinalitySignatureFetch(FetcherRequest<NodeId, FinalitySignatureId>),
    BlockFetch(FetcherRequest<NodeId, BlockHash>),
    ApprovalsHashesFetch(FetcherRequest<NodeId, BlockHash>),
    DeployFetch(FetcherRequest<NodeId, DeployId>),
    ExecutionResultsFetch(FetcherRequest<NodeId, BlockHash>),
    SyncGlobalState { block_hash: BlockHash, state_root_hash: Digest, peers: Vec<NodeId> },
    MakeBlockExecutable { block_hash: BlockHash },
    EnqueueBlockForExecution { finalized_block: FinalizedBlock },
    DisconnectFromPeer { peer: NodeId },
}

/// The kinds of items that builders fetch from peers.
#[derive(Clone, Copy, Debug, PartialEq, Eq, Structural)]
pub enum FetchKind {
    BlockHeader,
    SyncLeap,
    FinalitySignature,
    Block,
    ApprovalsHashes,
    Deploy,
    ExecutionResults,
}

impl Effect {
    /// The kind of item that the effect fetches, if it is a fetch.
    pub open spec fn fetch_kind(self) -> Option<FetchKind> {
        match self {
            Effect::BlockHeaderFetch(_) => Some(FetchKind::BlockHeader),
            Effect::SyncLeapFetch(_) => Some(FetchKind::SyncLeap),
            Effect::FinalitySignatureFetch(_) => Some(FetchKind::FinalitySignature),
            Effect::BlockFetch(_) => Some(FetchKind::Block),
            Effect::ApprovalsHashesFetch(_) => Some(FetchKind::ApprovalsHashes),
            Effect::DeployFetch(_) => Some(FetchKind::Deploy),
            Effect::ExecutionResultsFetch(_) => Some(FetchKind::ExecutionResults),
            _ => None,
        }
    }

    /// The peer that a fetch is addressed to.
    pub open spec fn fetch_peer(self) -> Option<NodeId> {
        match self {
            Effect::BlockHeaderFetch(f) => Some(f.peer_spec()),
            Effect::SyncLeapFetch(f) => Some(f.peer_spec()),
            Effect::FinalitySignatureFetch(f) => Some(f.peer_spec()),
            Effect::BlockFetch(f) => Some(f.peer_spec()),
            Effect::ApprovalsHashesFetch(f) => Some(f.peer_spec()),
            Effect::DeployFetch(f) => Some(f.peer_spec()),
            Effect::ExecutionResultsFetch(f) => Some(f.peer_spec()),
            _ => None,
        }
    }
}

/// A networking request, generic over the peer id and the payload.
#[derive(Clone, Debug)]
pub enum NetworkRequest<I, P> {
    /// Send a message to one peer.
    SendMessage { dest: I, payload: P },
    /// Send a message to all peers.
    Broadcast { payload: P },
    /// Gossip a message to up to `count` peers, none of `exclude`.
    Gossip { payload: P, count: usize, exclude: Vec<I> },
}

impl<I, P> NetworkRequest<I, P> {
    pub open spec fn payload_spec(self) -> P {
        match self {
            NetworkRequest::SendMessage { payload, .. } => payload,
            NetworkRequest::Broadcast { payload } => payload,
            NetworkRequest::Gossip { payload, .. } => payload,
        }
    }

    /// Transforms the request by mapping its payload; everything else is kept.
    pub fn map_payload<F, P2>(self, wrap_payload: F) -> (r: NetworkRequest<I, P2>) where
        F: FnOnce(P) -> P2,

        requires
            call_requires(wrap_payload, (self.payload_spec(),)),
        ensures
            call_ensures(wrap_payload, (self.payload_spec(),), r.payload_spec()),
            match (self, r) {
                (
                    NetworkRequest::SendMessage { dest: d1, .. },
                    NetworkRequest::SendMessage { dest: d2, .. },
                ) => d1 == d2,
                (NetworkRequest::Broadcast { .. }, NetworkRequest::Broadcast { .. }) => true,
                (
                    NetworkRequest::Gossip { count: c1, exclude: e1, .. },
                    NetworkRequest::Gossip { count: c2, exclude: e2, .. },
                ) => c1 == c2 && e1 == e2,
                _ => false,
            },
    {
        match self {
            NetworkRequest::SendMessage { dest, payload } => NetworkRequest::SendMessage {
                dest,
                payload: wrap_payload(payload),
            },
            NetworkRequest::Broadcast { payload } => NetworkRequest::Broadcast {
                payload: wrap_payload(payload),
            },
            NetworkRequest::Gossip { payload, count, exclude } => NetworkRequest::Gossip {
                payload: wrap_payload(payload),
                count,
                exclude,
            },
        }
    }
}

/// Requests to the linear chain component.
#[derive(Clone, Copy, Debug, PartialEq, Eq, Structural)]
pub enum LinearChainRequest<I> {
    /// The whole block with this hash, asked by a peer.
    BlockRequest(BlockHash, I),
    /// The block at this height, asked by a peer.
    BlockAtHeight(Height, I),
    /// The block at this height, asked locally.
    BlockAtHeightLocal(Height),
}

/// Asks for a block to be validated; its sender is asked for missing deploys.
#[derive(Clone, Copy, Debug, PartialEq, Eq, Structural)]
pub struct BlockValidationRequest<T, I> {
    pub block: T,
    pub sender: I,
    /// Deploys must not be younger than this.
    pub block_timestamp: Timestamp,
}

/// Asks the block proposer for deploys to propose.
#[derive(Clone, Debug)]
pub enum BlockProposerRequest {
    ListForInclusion { current_instant: Timestamp, past_blocks: Vec<DeployHash> },
}

/// Asks consensus to sign a block of the linear chain.
#[derive(Clone, Copy, Debug, PartialEq, Eq, Structural)]
pub enum ConsensusRequest {
    HandleLinearBlock(BlockHeader),
}

/// Asks the chainspec loader for its information.
#[derive(Clone, Copy, Debug, PartialEq, Eq, Structural)]
pub enum ChainspecLoaderRequest {
    GetChainspecInfo,
}

/// Asks for the node's metrics, rendered as text.
#[derive(Clone, Copy, Debug, PartialEq, Eq, Structural)]
pub enum MetricsRequest {
    RenderNodeMetricsText,
}

} // verus!
