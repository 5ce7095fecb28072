use block_sync::block_builder::{
    BlockAcquisitionState, BlockBuilder, BuilderError, GlobalStateSyncError, GlobalStateSynced,
};
use block_sync::block_synchronizer::{
    BlockSynchronizer, BlockSynchronizerProgress, FetchError, FetchedData, LATCH_TTL,
    MAX_SIMULTANEOUS_PEERS,
};
use block_sync::hashing::compute_body_hash;
use block_sync::requests::{BlockAccumulatorRequest, Effect, FetcherRequest, NetworkInfoRequest};
use block_sync::types::{
    ApprovalsHashes, Block, BlockBody, BlockHeader, Deploy, DeployHeader, DeployId,
    FinalitySignature, FinalizedBlock, NodeId,
};
use block_sync::validator_matrix::{
    weak_finality_threshold, EraValidatorWeights, SignatureWeight, ValidatorMatrix, ValidatorWeight,
};

const T0: u64 = 1_000_000;

struct TestEnv {
    block: Block,
    validator_keys: Vec<u64>,
    peers: Vec<NodeId>,
}

fn make_block(era_id: u64, height: u64, deploy_hashes: Vec<u64>) -> Block {
    let header = BlockHeader {
        parent: 0xfeed + height,
        height,
        era_id,
        state_root: 0x5700 + height,
        body_hash: compute_body_hash(&deploy_hashes),
        timestamp: 1_600_000_000_000 + height,
        is_switch_block: false,
    };
    Block { hash: header.block_hash(), header, body: BlockBody { deploy_hashes } }
}

impl TestEnv {
    fn new(num_validators: u64, num_peers: u64) -> TestEnv {
        TestEnv {
            block: make_block(1, 10, Vec::new()),
            validator_keys: (1..=num_validators).map(|k| 1000 + k).collect(),
            peers: (1..=num_peers).map(|p| 500 + p).collect(),
        }
    }

    fn with_block(self, block: Block) -> Self {
        TestEnv { block, validator_keys: self.validator_keys, peers: self.peers }
    }

    fn gen_validator_matrix(&self) -> ValidatorMatrix {
        let mut matrix = ValidatorMatrix::new();
        let validators = self
            .validator_keys
            .iter()
            .map(|k| ValidatorWeight { public_key: *k, weight: 100 })
            .collect();
        assert!(matrix.register_validator_weights(EraValidatorWeights {
            era_id: self.block.header.era_id,
            validators,
        }));
        matrix
    }
}

fn new_initialized(matrix: ValidatorMatrix) -> BlockSynchronizer {
    BlockSynchronizer::new(MAX_SIMULTANEOUS_PEERS, LATCH_TTL, matrix)
}

fn signature(block: &Block, key: u64) -> FinalitySignature {
    FinalitySignature {
        block_hash: block.hash,
        era_id: block.header.era_id,
        public_key: key,
        signature: key ^ block.hash,
    }
}

fn register_multiple_signatures(builder: &mut BlockBuilder, block: &Block, keys: &[u64]) {
    for key in keys {
        assert!(builder.register_finality_signature(signature(block, *key), None).is_ok());
    }
}

fn finalized(block: &Block) -> FinalizedBlock {
    FinalizedBlock::from_block(block)
}

fn forward(sync: &mut BlockSynchronizer) -> &mut BlockBuilder {
    sync.forward.as_mut().expect("Forward builder should have been initialized")
}

fn historical(sync: &mut BlockSynchronizer) -> &mut BlockBuilder {
    sync.historical.as_mut().expect("should have historical builder")
}

/// Forward sync with the header and validator weights registered.
fn forward_with_header(env: &TestEnv) -> BlockSynchronizer {
    let mut sync = new_initialized(env.gen_validator_matrix());
    assert!(sync.register_block_by_hash(env.block.hash, false));
    sync.register_peers(env.block.hash, &env.peers);
    let matrix = sync.validator_matrix.clone();
    let b = forward(&mut sync);
    assert!(b.register_block_header(env.block.header, None).is_ok());
    assert!(b.register_era_validator_weights(&matrix));
    sync
}

fn header_fetch_peer(e: &Effect) -> Option<NodeId> {
    match e {
        Effect::BlockHeaderFetch(FetcherRequest::Fetch { peer, .. }) => Some(*peer),
        _ => None,
    }
}

#[test]
fn weak_finality_threshold_rounds_up() {
    assert_eq!(weak_finality_threshold(0), 0);
    assert_eq!(weak_finality_threshold(3), 1);
    assert_eq!(weak_finality_threshold(7), 3);
    assert_eq!(weak_finality_threshold(9), 3);
    assert_eq!(weak_finality_threshold(10), 4);
}

#[test]
fn duplicate_register_block_not_allowed_if_builder_is_not_failed() {
    let env = TestEnv::new(7, 12);
    let mut sync = new_initialized(env.gen_validator_matrix());
    assert!(sync.register_block_by_hash(env.block.hash, false));
    assert!(sync.forward.is_some());
    assert!(!sync.register_block_by_hash(env.block.hash, false));
    let new_block = make_block(1, 11, Vec::new());
    assert!(sync.register_block_by_hash(new_block.hash, false));
    assert_eq!(sync.forward.as_ref().unwrap().block_hash(), new_block.hash);
}

#[test]
fn failed_builder_can_be_registered_again() {
    let env = TestEnv::new(3, 12);
    let mut sync = forward_with_header(&env);
    let b = forward(&mut sync);
    register_multiple_signatures(b, &env.block, &env.validator_keys);
    assert!(b.register_block(env.block.clone(), None).is_ok());
    let _ = sync.need_next(T0);
    sync.made_finalized_block(env.block.hash, None);
    assert!(forward(&mut sync).is_failed());
    assert!(sync.register_block_by_hash(env.block.hash, false));
    assert_eq!(
        forward(&mut sync).block_acquisition_state(),
        BlockAcquisitionState::HaveBlockHash
    );
}

#[test]
fn builders_are_purged_when_requested() {
    let env = TestEnv::new(7, 12);
    let mut sync = new_initialized(env.gen_validator_matrix());
    assert!(sync.register_block_by_hash(env.block.hash, false));
    assert!(sync.register_block_by_hash(make_block(1, 20, Vec::new()).hash, true));
    assert!(sync.forward.is_some());
    assert!(sync.historical.is_some());

    sync.purge_historical();
    assert!(sync.forward.is_some());
    assert!(sync.historical.is_none());

    assert!(sync.register_block_by_hash(make_block(1, 21, Vec::new()).hash, true));
    assert!(sync.forward.is_some());
    assert!(sync.historical.is_some());

    sync.purge_forward();
    assert!(sync.forward.is_none());
    assert!(sync.historical.is_some());

    assert!(sync.register_block_by_hash(env.block.hash, false));
    assert!(sync.forward.is_some());
    assert!(sync.historical.is_some());

    sync.purge();
    assert!(sync.forward.is_none());
    assert!(sync.historical.is_none());
}

#[test]
fn historical_sync_gets_peers_form_both_connected_peers_and_accumulator() {
    let env = TestEnv::new(7, 12);
    let mut sync = new_initialized(env.gen_validator_matrix());
    assert!(sync.register_block_by_hash(env.block.hash, true));
    assert!(sync.historical.is_some());
    let effects = sync.need_next(T0);
    assert_eq!(effects.len(), 2);
    assert!(matches!(
        effects[0],
        Effect::NetworkInfo(NetworkInfoRequest::FullyConnectedPeers { count })
            if count == MAX_SIMULTANEOUS_PEERS
    ));
    assert!(matches!(
        effects[1],
        Effect::BlockAccumulator(BlockAccumulatorRequest::GetPeersForBlock { block_hash })
            if block_hash == env.block.hash
    ));
}

#[test]
fn fwd_sync_gets_peers_only_from_accumulator() {
    let env = TestEnv::new(7, 12);
    let mut sync = new_initialized(env.gen_validator_matrix());
    assert!(sync.register_block_by_hash(env.block.hash, false));
    assert!(sync.forward.is_some());
    let effects = sync.need_next(T0);
    assert_eq!(effects.len(), 1);
    assert!(matches!(
        effects[0],
        Effect::BlockAccumulator(BlockAccumulatorRequest::GetPeersForBlock { block_hash })
            if block_hash == env.block.hash
    ));
}

#[test]
fn sync_starts_with_header_fetch() {
    let env = TestEnv::new(7, 12);
    let mut sync = new_initialized(env.gen_validator_matrix());
    assert!(sync.register_block_by_hash(env.block.hash, false));
    assert!(sync.forward.is_some());
    sync.register_peers(env.block.hash, &env.peers);
    let effects = sync.need_next(T0);
    assert_eq!(effects.len(), MAX_SIMULTANEOUS_PEERS);
    let mut asked = Vec::new();
    for e in &effects {
        match e {
            Effect::BlockHeaderFetch(FetcherRequest::Fetch { id, peer }) => {
                assert!(env.peers.contains(peer));
                assert_eq!(*id, env.block.hash);
                assert!(!asked.contains(peer));
                asked.push(*peer);
            }
            other => panic!("unexpected effect: {:?}", other),
        }
    }
}

#[test]
fn header_fetch_waits_for_peers_then_asks_each_once() {
    let env = TestEnv::new(7, 12);
    let mut sync = new_initialized(env.gen_validator_matrix());
    assert!(sync.register_block_by_hash(env.block.hash, true));
    assert_eq!(sync.need_next(T0).len(), 2);
    // Latched after asking for peers.
    assert!(sync.need_next(T0 + 1).is_empty());
    // The peers' arrival answers the request and clears the latch.
    sync.register_peers(env.block.hash, &env.peers);
    let effects = sync.need_next(T0 + 2);
    assert_eq!(effects.len(), MAX_SIMULTANEOUS_PEERS);
    assert!(effects.iter().all(|e| header_fetch_peer(e).is_some()));
}

#[test]
fn fwd_sync_is_not_blocked_by_failed_header_fetch_within_latch_interval() {
    let env = TestEnv::new(7, 12);
    let mut sync = new_initialized(env.gen_validator_matrix());
    assert!(sync.register_block_by_hash(env.block.hash, false));
    sync.register_peers(env.block.hash, &env.peers);
    let effects = sync.need_next(T0);
    assert_eq!(effects.len(), MAX_SIMULTANEOUS_PEERS);
    let asked: Vec<NodeId> = effects.iter().filter_map(header_fetch_peer).collect();
    for peer in &asked {
        let r = sync.block_header_fetched(
            env.block.hash,
            Err(FetchError::Absent { id: env.block.hash, peer: *peer }),
        );
        assert!(r.is_empty());
        assert!(forward(&mut sync).peer_list().is_peer_unreliable(*peer));
    }
    // Within the latch nothing new is asked; once it expires the header is asked again.
    assert!(sync.need_next(T0 + 1).is_empty());
    let effects = sync.need_next(T0 + LATCH_TTL);
    assert_eq!(effects.len(), MAX_SIMULTANEOUS_PEERS);
    for e in &effects {
        let peer = header_fetch_peer(e).expect("header fetch");
        assert!(!asked.contains(&peer));
    }
}

#[test]
fn registering_header_successfully_triggers_signatures_fetch_for_weak_finality() {
    let env = TestEnv::new(7, 12);
    let mut sync = new_initialized(env.gen_validator_matrix());
    assert!(sync.register_block_by_hash(env.block.hash, false));
    sync.register_peers(env.block.hash, &env.peers);
    let effects = sync.need_next(T0);
    let asked: Vec<NodeId> = effects.iter().filter_map(header_fetch_peer).collect();
    assert_eq!(asked.len(), MAX_SIMULTANEOUS_PEERS);

    let r = sync.block_header_fetched(
        env.block.hash,
        Ok(FetchedData::FromPeer(env.block.header, asked[0])),
    );
    assert!(r.is_empty());
    let b = forward(&mut sync);
    assert_eq!(b.block_acquisition_state(), BlockAcquisitionState::HaveBlockHeader);
    assert!(b.validators.is_some());
    assert!(b.peer_list().is_peer_reliable(asked[0]));

    // The header's era is in the matrix: the header's arrival alone leads to signature
    // requests, within the latch interval of the header requests.
    let effects = sync.need_next(T0 + 1);
    assert_eq!(effects.len(), MAX_SIMULTANEOUS_PEERS);
    for e in &effects {
        match e {
            Effect::FinalitySignatureFetch(FetcherRequest::Fetch { id, peer }) => {
                assert!(env.peers.contains(peer));
                assert_eq!(id.block_hash, env.block.hash);
                assert_eq!(id.era_id, env.block.header.era_id);
            }
            other => panic!("unexpected effect: {:?}", other),
        }
    }
}

#[test]
fn header_with_wrong_hash_is_refused_and_sender_disconnected() {
    let env = TestEnv::new(7, 12);
    let mut sync = new_initialized(env.gen_validator_matrix());
    assert!(sync.register_block_by_hash(env.block.hash, false));
    let mut bad = env.block.header;
    bad.height += 1;
    let r = sync.block_header_fetched(env.block.hash, Ok(FetchedData::FromPeer(bad, 501)));
    assert_eq!(r.len(), 1);
    assert!(matches!(r[0], Effect::DisconnectFromPeer { peer: 501 }));
    let b = forward(&mut sync);
    assert_eq!(b.block_acquisition_state(), BlockAcquisitionState::HaveBlockHash);
    assert!(b.peer_list().is_peer_unreliable(501));
}

#[test]
fn fwd_more_signatures_are_requested_if_weak_finality_is_not_reached() {
    let env = TestEnv::new(7, 12);
    let mut sync = forward_with_header(&env);
    assert_eq!(
        forward(&mut sync).block_acquisition_state(),
        BlockAcquisitionState::HaveBlockHeader
    );
    let r = sync.finality_signature_fetched(
        env.block.hash,
        Ok(FetchedData::FromPeer(signature(&env.block, env.validator_keys[0]), env.peers[0])),
    );
    assert!(r.is_empty());
    let effects = sync.need_next(T0);
    assert_eq!(effects.len(), std::cmp::min(env.validator_keys.len() - 1, MAX_SIMULTANEOUS_PEERS));
    for e in &effects {
        match e {
            Effect::FinalitySignatureFetch(FetcherRequest::Fetch { id, peer }) => {
                assert!(env.peers.contains(peer));
                assert_eq!(id.block_hash, env.block.hash);
                assert_eq!(id.era_id, env.block.header.era_id);
                assert_ne!(id.public_key, env.validator_keys[0]);
            }
            other => panic!("unexpected effect: {:?}", other),
        }
    }
    // Two of seven (200 of 700) is not weak finality; the third (300 >= 234) is.
    let r = sync.finality_signature_fetched(
        env.block.hash,
        Ok(FetchedData::FromPeer(signature(&env.block, env.validator_keys[1]), env.peers[2])),
    );
    assert!(r.is_empty());
    assert_eq!(
        forward(&mut sync).block_acquisition_state(),
        BlockAcquisitionState::HaveBlockHeader
    );
    let r = sync.finality_signature_fetched(
        env.block.hash,
        Ok(FetchedData::FromPeer(signature(&env.block, env.validator_keys[2]), env.peers[2])),
    );
    assert!(r.is_empty());
    assert_eq!(
        forward(&mut sync).block_acquisition_state(),
        BlockAcquisitionState::HaveWeakFinalitySignatures
    );
    let effects = sync.need_next(T0 + 1);
    assert_eq!(effects.len(), MAX_SIMULTANEOUS_PEERS);
    for e in &effects {
        match e {
            Effect::BlockFetch(FetcherRequest::Fetch { id, peer }) => {
                assert!(env.peers.contains(peer));
                assert_eq!(*id, env.block.hash);
            }
            other => panic!("unexpected effect: {:?}", other),
        }
    }
}

#[test]
fn next_action_for_have_weak_finality_is_fetching_block_body() {
    let env = TestEnv::new(7, 12);
    let mut sync = forward_with_header(&env);
    let n = weak_finality_threshold(env.validator_keys.len());
    register_multiple_signatures(forward(&mut sync), &env.block, &env.validator_keys[..n]);
    assert_eq!(
        forward(&mut sync).block_acquisition_state(),
        BlockAcquisitionState::HaveWeakFinalitySignatures
    );
    let effects = sync.need_next(T0);
    assert_eq!(effects.len(), MAX_SIMULTANEOUS_PEERS);
    for e in &effects {
        assert!(matches!(e, Effect::BlockFetch(FetcherRequest::Fetch { id, .. }) if *id == env.block.hash));
    }
}

#[test]
fn registering_block_body_transitions_builder_to_have_block_state() {
    let env = TestEnv::new(7, 12);
    let mut sync = forward_with_header(&env);
    let n = weak_finality_threshold(env.validator_keys.len());
    register_multiple_signatures(forward(&mut sync), &env.block, &env.validator_keys[..n]);
    assert_eq!(sync.need_next(T0).len(), MAX_SIMULTANEOUS_PEERS);
    let r = sync.block_fetched(env.block.hash, Ok(FetchedData::FromPeer(env.block.clone(), env.peers[0])));
    assert!(r.is_empty());
    assert_eq!(forward(&mut sync).block_acquisition_state(), BlockAcquisitionState::HaveBlock);
}

#[test]
fn block_with_mismatching_body_is_refused() {
    let env = TestEnv::new(7, 12);
    let mut sync = forward_with_header(&env);
    let n = weak_finality_threshold(env.validator_keys.len());
    register_multiple_signatures(forward(&mut sync), &env.block, &env.validator_keys[..n]);
    let mut bad = env.block.clone();
    bad.body.deploy_hashes.push(99);
    assert_eq!(
        forward(&mut sync).register_block(bad, Some(env.peers[1])),
        Err(BuilderError::InvalidBlock)
    );
    let b = forward(&mut sync);
    assert_eq!(b.block_acquisition_state(), BlockAcquisitionState::HaveWeakFinalitySignatures);
    assert!(b.peer_list().is_peer_unreliable(env.peers[1]));
}

#[test]
fn fwd_having_block_body_for_block_without_deploys_requires_only_signatures() {
    let env = TestEnv::new(7, 12);
    let mut sync = forward_with_header(&env);
    let n = weak_finality_threshold(env.validator_keys.len());
    let b = forward(&mut sync);
    register_multiple_signatures(b, &env.block, &env.validator_keys[..n]);
    assert!(b.register_block(env.block.clone(), None).is_ok());
    assert_eq!(b.block_acquisition_state(), BlockAcquisitionState::HaveBlock);
    let effects = sync.need_next(T0);
    assert_eq!(effects.len(), std::cmp::min(env.validator_keys.len() - n, MAX_SIMULTANEOUS_PEERS));
    for e in &effects {
        match e {
            Effect::FinalitySignatureFetch(FetcherRequest::Fetch { id, peer }) => {
                assert!(env.peers.contains(peer));
                assert_eq!(id.block_hash, env.block.hash);
                assert_eq!(id.era_id, env.block.header.era_id);
                assert!(!env.validator_keys[..n].contains(&id.public_key));
            }
            other => panic!("unexpected effect: {:?}", other),
        }
    }
    assert_eq!(forward(&mut sync).block_acquisition_state(), BlockAcquisitionState::HaveAllDeploys);
}

fn deploy(hash: u64, approvals_hash: u64) -> Deploy {
    Deploy { hash, header: DeployHeader { timestamp: 1_600_000_000_000, ttl: 3_600_000 }, approvals_hash }
}

#[test]
fn fwd_having_block_body_for_block_with_deploys_requires_approvals_hashes() {
    let env = TestEnv::new(7, 12).with_block(make_block(1, 10, vec![0xd1]));
    let mut sync = forward_with_header(&env);
    let n = weak_finality_threshold(env.validator_keys.len());
    let b = forward(&mut sync);
    register_multiple_signatures(b, &env.block, &env.validator_keys[..n]);
    assert!(b.register_block(env.block.clone(), None).is_ok());
    assert_eq!(b.block_acquisition_state(), BlockAcquisitionState::HaveBlock);
    let effects = sync.need_next(T0);
    assert_eq!(effects.len(), MAX_SIMULTANEOUS_PEERS);
    for e in &effects {
        assert!(matches!(e, Effect::ApprovalsHashesFetch(FetcherRequest::Fetch { id, peer })
            if *id == env.block.hash && env.peers.contains(peer)));
    }
}

#[test]
fn fwd_registering_approvals_hashes_triggers_fetch_for_deploys() {
    let d = deploy(0xd1, 0xa1);
    let env = TestEnv::new(7, 12).with_block(make_block(1, 10, vec![d.hash]));
    let mut sync = forward_with_header(&env);
    let n = weak_finality_threshold(env.validator_keys.len());
    let b = forward(&mut sync);
    register_multiple_signatures(b, &env.block, &env.validator_keys[..n]);
    assert!(b.register_block(env.block.clone(), None).is_ok());
    let approvals_hashes = ApprovalsHashes { block_hash: env.block.hash, approvals_hashes: vec![d.approvals_hash] };
    let r = sync.approvals_hashes_fetched(
        env.block.hash,
        Ok(FetchedData::FromPeer(approvals_hashes.clone(), env.peers[0])),
    );
    assert!(r.is_empty());
    let effects = sync.need_next(T0);
    assert_eq!(effects.len(), MAX_SIMULTANEOUS_PEERS);
    for e in &effects {
        match e {
            Effect::DeployFetch(FetcherRequest::Fetch { id, peer }) => {
                assert!(env.peers.contains(peer));
                assert_eq!(*id, DeployId::new(d.hash, approvals_hashes.approvals_hashes[0]));
            }
            other => panic!("unexpected effect: {:?}", other),
        }
    }
    // A deploy under other approvals is refused; the right one completes the deploys.
    let r = sync.deploy_fetched(DeployId::new(d.hash, 0xbad), Ok(FetchedData::FromPeer(deploy(d.hash, 0xbad), env.peers[3])));
    assert!(r.is_empty());
    let b = forward(&mut sync);
    assert_eq!(b.register_deploy(&deploy(d.hash, 0xbad), Some(env.peers[3])), Err(BuilderError::UnexpectedItem).or(Err(BuilderError::InvalidDeploy)));
    assert!(b.deploys_have.is_empty());
    let r = sync.deploy_fetched(d.id(), Ok(FetchedData::FromPeer(d, env.peers[1])));
    assert!(r.is_empty());
    let b = forward(&mut sync);
    assert_eq!(b.deploys_have, vec![d.id()]);
    assert_eq!(b.block_acquisition_state(), BlockAcquisitionState::HaveAllDeploys);
}

#[test]
fn fwd_have_block_body_without_deploys_and_strict_finality_transitions_state_machine() {
    let env = TestEnv::new(7, 12);
    let mut sync = forward_with_header(&env);
    let b = forward(&mut sync);
    register_multiple_signatures(b, &env.block, &env.validator_keys);
    assert_eq!(b.block_acquisition_state(), BlockAcquisitionState::HaveWeakFinalitySignatures);
    assert!(b.register_block(env.block.clone(), None).is_ok());
    assert_eq!(b.block_acquisition_state(), BlockAcquisitionState::HaveBlock);
    let effects = sync.need_next(T0);
    assert_eq!(effects.len(), 1);
    assert!(matches!(effects[0], Effect::MakeBlockExecutable { block_hash } if block_hash == env.block.hash));
    assert_eq!(
        forward(&mut sync).block_acquisition_state(),
        BlockAcquisitionState::HaveStrictFinalitySignatures
    );
}

#[test]
fn forward_happy_path_emits_one_make_executable_and_one_enqueue() {
    let env = TestEnv::new(7, 12);
    let mut sync = new_initialized(env.gen_validator_matrix());
    assert!(sync.register_block_by_hash(env.block.hash, false));
    sync.register_peers(env.block.hash, &env.peers);
    let mut states = vec![forward(&mut sync).block_acquisition_state()];
    let mut make_executable = 0;
    let mut enqueue = 0;
    let mut now = T0;
    let mut count = |effects: &Vec<Effect>, make: &mut i32, enq: &mut i32| {
        for e in effects {
            match e {
                Effect::MakeBlockExecutable { .. } => *make += 1,
                Effect::EnqueueBlockForExecution { .. } => *enq += 1,
                _ => {}
            }
        }
    };
    let e = sync.need_next(now);
    count(&e, &mut make_executable, &mut enqueue);
    sync.block_header_fetched(env.block.hash, Ok(FetchedData::FromPeer(env.block.header, env.peers[0])));
    states.push(forward(&mut sync).block_acquisition_state());
    let matrix = sync.validator_matrix.clone();
    forward(&mut sync).register_era_validator_weights(&matrix);
    for key in &env.validator_keys {
        sync.finality_signature_fetched(env.block.hash, Ok(FetchedData::FromStorage(signature(&env.block, *key))));
        let s = forward(&mut sync).block_acquisition_state();
        if *states.last().unwrap() != s {
            states.push(s);
        }
    }
    sync.block_fetched(env.block.hash, Ok(FetchedData::FromPeer(env.block.clone(), env.peers[1])));
    states.push(forward(&mut sync).block_acquisition_state());
    now += 1;
    let e = sync.need_next(now);
    count(&e, &mut make_executable, &mut enqueue);
    states.push(forward(&mut sync).block_acquisition_state());
    // Latched: asking again does not repeat the request.
    let e = sync.need_next(now + 1);
    assert!(e.is_empty());
    sync.made_finalized_block(env.block.hash, Some(finalized(&env.block)));
    states.push(forward(&mut sync).block_acquisition_state());
    let e = sync.need_next(now + 2);
    count(&e, &mut make_executable, &mut enqueue);
    sync.block_execution_enqueued(env.block.hash);
    states.push(forward(&mut sync).block_acquisition_state());
    assert!(sync.need_next(now + LATCH_TTL * 3).is_empty());
    sync.block_executed(env.block.hash);
    states.push(forward(&mut sync).block_acquisition_state());
    assert_eq!(
        states,
        vec![
            BlockAcquisitionState::HaveBlockHash,
            BlockAcquisitionState::HaveBlockHeader,
            BlockAcquisitionState::HaveWeakFinalitySignatures,
            BlockAcquisitionState::HaveBlock,
            BlockAcquisitionState::HaveStrictFinalitySignatures,
            BlockAcquisitionState::HaveFinalizedBlock,
            BlockAcquisitionState::Executing,
            BlockAcquisitionState::Synced,
        ]
    );
    assert_eq!(make_executable, 1);
    assert_eq!(enqueue, 1);
    assert_eq!(sync.forward_progress(), BlockSynchronizerProgress::Synced(env.block.hash));
}

fn strict_forward(env: &TestEnv) -> BlockSynchronizer {
    let mut sync = forward_with_header(env);
    let n = weak_finality_threshold(env.validator_keys.len());
    let b = forward(&mut sync);
    register_multiple_signatures(b, &env.block, &env.validator_keys[..n]);
    assert!(b.register_block(env.block.clone(), None).is_ok());
    assert_eq!(b.block_acquisition_state(), BlockAcquisitionState::HaveBlock);
    register_multiple_signatures(b, &env.block, &env.validator_keys[n..]);
    assert_eq!(b.block_acquisition_state(), BlockAcquisitionState::HaveStrictFinalitySignatures);
    sync
}

#[test]
fn fwd_have_block_with_strict_finality_requires_creation_of_finalized_block() {
    let env = TestEnv::new(7, 12);
    let mut sync = strict_forward(&env);
    let effects = sync.need_next(T0);
    assert_eq!(effects.len(), 1);
    assert!(matches!(effects[0], Effect::MakeBlockExecutable { block_hash } if block_hash == env.block.hash));
}

#[test]
fn fwd_have_strict_finality_requests_enqueue_when_finalized_block_is_created() {
    let env = TestEnv::new(7, 12);
    let mut sync = strict_forward(&env);
    assert_eq!(sync.forward_progress(), BlockSynchronizerProgress::Syncing(env.block.hash));
    sync.made_finalized_block(env.block.hash, Some(finalized(&env.block)));
    assert_eq!(
        forward(&mut sync).block_acquisition_state(),
        BlockAcquisitionState::HaveFinalizedBlock
    );
    let effects = sync.need_next(T0);
    assert_eq!(effects.len(), 1);
    match &effects[0] {
        Effect::EnqueueBlockForExecution { finalized_block } => {
            assert_eq!(finalized_block.height(), env.block.header.height);
            assert_eq!(finalized_block.block_hash, env.block.hash);
        }
        other => panic!("unexpected effect: {:?}", other),
    }
    assert_eq!(sync.forward_progress(), BlockSynchronizerProgress::Syncing(env.block.hash));
}

#[test]
fn fwd_builder_status_is_executing_when_block_is_enqueued_for_execution() {
    let env = TestEnv::new(7, 12);
    let mut sync = strict_forward(&env);
    let b = forward(&mut sync);
    assert!(b.register_made_finalized_block(Some(finalized(&env.block))).is_ok());
    assert_eq!(b.block_acquisition_state(), BlockAcquisitionState::HaveFinalizedBlock);
    sync.block_execution_enqueued(env.block.hash);
    assert_eq!(sync.forward_progress(), BlockSynchronizerProgress::Executing(env.block.hash));
}

#[test]
fn fwd_sync_is_finished_when_block_is_marked_as_executed() {
    let env = TestEnv::new(7, 12);
    let mut sync = strict_forward(&env);
    let b = forward(&mut sync);
    assert!(b.register_made_finalized_block(Some(finalized(&env.block))).is_ok());
    assert!(b.register_block_execution_enqueued().is_ok());
    assert_eq!(sync.forward_progress(), BlockSynchronizerProgress::Executing(env.block.hash));
    sync.block_executed(env.block.hash);
    assert!(sync.need_next(T0).is_empty());
    assert_eq!(sync.forward_progress(), BlockSynchronizerProgress::Synced(env.block.hash));
}

#[test]
fn synchronizer_halts_if_block_cannot_be_made_executable() {
    let env = TestEnv::new(7, 12);
    let mut sync = strict_forward(&env);
    let effects = sync.need_next(T0);
    assert_eq!(effects.len(), 1);
    sync.made_finalized_block(env.block.hash, None);
    assert_eq!(forward(&mut sync).block_acquisition_state(), BlockAcquisitionState::Failed);
    assert!(sync.need_next(T0 + LATCH_TTL).is_empty());
    assert_eq!(sync.forward_progress(), BlockSynchronizerProgress::Failed(env.block.hash));
}

#[test]
fn global_state_sync_wont_stall_with_bad_peers() {
    let env = TestEnv::new(7, 12).with_block(make_block(1, 30, vec![0xd1]));
    let d = deploy(0xd1, 0xa1);
    let mut sync = new_initialized(env.gen_validator_matrix());
    assert!(sync.register_block_by_hash(env.block.hash, true));
    sync.register_peers(env.block.hash, &env.peers);
    let matrix = sync.validator_matrix.clone();
    let b = historical(&mut sync);
    assert!(b.register_block_header(env.block.header, None).is_ok());
    assert!(b.register_era_validator_weights(&matrix));
    let n = weak_finality_threshold(env.validator_keys.len());
    register_multiple_signatures(b, &env.block, &env.validator_keys[..n]);
    assert!(b.register_block(env.block.clone(), None).is_ok());
    assert!(b
        .register_approvals_hashes(ApprovalsHashes { block_hash: env.block.hash, approvals_hashes: vec![d.approvals_hash] }, None)
        .is_ok());
    assert!(b.register_deploy(&d, None).is_ok());
    register_multiple_signatures(b, &env.block, &env.validator_keys[n..]);
    assert_eq!(b.block_acquisition_state(), BlockAcquisitionState::HaveStrictFinalitySignatures);

    let sync_peers = |effects: &Vec<Effect>| -> Vec<NodeId> {
        assert_eq!(effects.len(), 1);
        match &effects[0] {
            Effect::SyncGlobalState { block_hash, state_root_hash, peers } => {
                assert_eq!(*block_hash, env.block.hash);
                assert_eq!(*state_root_hash, env.block.header.state_root);
                peers.clone()
            }
            other => panic!("unexpected effect: {:?}", other),
        }
    };
    let first = sync_peers(&sync.need_next(T0));
    assert_eq!(first.len(), MAX_SIMULTANEOUS_PEERS);
    let first_peer_set: Vec<NodeId> = first.iter().take(4).copied().collect();
    sync.global_state_synced(env.block.hash, Err(GlobalStateSyncError::TrieAccumulator(first_peer_set.clone())));
    // Still latched: nothing new until the latch expires.
    assert!(sync.need_next(T0 + 1).is_empty());
    let second = sync_peers(&sync.need_next(T0 + LATCH_TTL + 1));
    for p in &second {
        assert!(!first_peer_set.contains(p));
    }
    let unreliable_peers: Vec<NodeId> = second.iter().take(2).copied().collect();
    sync.global_state_synced(
        env.block.hash,
        Ok(GlobalStateSynced { state_root_hash: env.block.header.state_root, unreliable_peers: unreliable_peers.clone() }),
    );
    let effects = sync.need_next(T0 + 2 * LATCH_TTL + 2);
    assert_eq!(effects.len(), 1);
    assert!(!matches!(effects[0], Effect::SyncGlobalState { .. }));
    assert!(matches!(effects[0], Effect::ExecutionResultsFetch(_)));
    for p in &unreliable_peers {
        assert!(historical(&mut sync).peer_list().is_peer_unreliable(*p));
    }
    sync.execution_results_fetched(env.block.hash, Ok(FetchedData::FromStorage(env.block.hash)));
    assert_eq!(sync.historical_progress(), BlockSynchronizerProgress::Synced(env.block.hash));
}

#[test]
fn should_not_stall_after_registering_new_era_validator_weights() {
    let env = TestEnv::new(7, 12);
    let mut sync = new_initialized(ValidatorMatrix::new());
    assert!(sync.register_block_by_hash(env.block.hash, true));
    sync.register_peers(env.block.hash, &env.peers);
    historical(&mut sync)
        .register_block_header(env.block.header, None)
        .expect("should register block header");
    let effects = sync.need_next(T0);
    assert_eq!(effects.len(), MAX_SIMULTANEOUS_PEERS);
    for e in &effects {
        assert!(matches!(e, Effect::SyncLeapFetch(_)), "unexpected event: {:?}", e);
    }
    assert!(sync.need_next(T0 + 1).is_empty(), "should not have need next while latched");
    assert!(sync.register_era_validator_weights(EraValidatorWeights {
        era_id: env.block.header.era_id,
        validators: vec![ValidatorWeight { public_key: 42, weight: 100 }],
    }));
    let effects = sync.need_next(T0 + 2);
    assert_eq!(effects.len(), 1);
    match &effects[0] {
        Effect::FinalitySignatureFetch(FetcherRequest::Fetch { id, peer }) => {
            assert!(env.peers.contains(peer));
            assert_eq!(id.block_hash, env.block.hash);
            assert_eq!(id.public_key, 42);
        }
        other => panic!("unexpected effect: {:?}", other),
    }
}

#[test]
fn reregistering_items_leaves_builder_unchanged() {
    let d = deploy(0xd1, 0xa1);
    let env = TestEnv::new(7, 12).with_block(make_block(1, 10, vec![d.hash]));
    let mut sync = forward_with_header(&env);
    let b = forward(&mut sync);
    let snapshot = format!("{:?}", b);
    assert!(b.register_block_header(env.block.header, Some(env.peers[0])).is_ok());
    assert_eq!(format!("{:?}", b), snapshot);
    assert!(b.register_finality_signature(signature(&env.block, env.validator_keys[0]), None).is_ok());
    let snapshot = format!("{:?}", b);
    assert!(b.register_finality_signature(signature(&env.block, env.validator_keys[0]), Some(env.peers[0])).is_ok());
    assert_eq!(format!("{:?}", b), snapshot);
    register_multiple_signatures(b, &env.block, &env.validator_keys[1..3]);
    assert!(b.register_block(env.block.clone(), None).is_ok());
    let snapshot = format!("{:?}", b);
    assert!(b.register_block(env.block.clone(), Some(env.peers[1])).is_ok());
    assert_eq!(format!("{:?}", b), snapshot);
    let ah = ApprovalsHashes { block_hash: env.block.hash, approvals_hashes: vec![d.approvals_hash] };
    assert!(b.register_approvals_hashes(ah.clone(), None).is_ok());
    let snapshot = format!("{:?}", b);
    assert!(b.register_approvals_hashes(ah, Some(env.peers[1])).is_ok());
    assert_eq!(format!("{:?}", b), snapshot);
    assert!(b.register_deploy(&d, None).is_ok());
    let snapshot = format!("{:?}", b);
    assert!(b.register_deploy(&d, Some(env.peers[2])).is_ok());
    assert_eq!(format!("{:?}", b), snapshot);
}

#[test]
fn signature_of_non_validator_or_other_era_is_refused() {
    let env = TestEnv::new(7, 12);
    let mut sync = forward_with_header(&env);
    let b = forward(&mut sync);
    assert_eq!(
        b.register_finality_signature(signature(&env.block, 9999), Some(env.peers[4])),
        Err(BuilderError::InvalidSignature)
    );
    let mut other_era = signature(&env.block, env.validator_keys[0]);
    other_era.era_id += 1;
    assert_eq!(b.register_finality_signature(other_era, None), Err(BuilderError::InvalidSignature));
    assert!(b.signatures.is_empty());
    assert!(b.peer_list().is_peer_unreliable(env.peers[4]));
}

#[test]
fn purge_then_register_after_sync_gives_fresh_builder() {
    let env = TestEnv::new(7, 12);
    let mut sync = strict_forward(&env);
    sync.made_finalized_block(env.block.hash, Some(finalized(&env.block)));
    sync.block_execution_enqueued(env.block.hash);
    sync.block_executed(env.block.hash);
    assert_eq!(sync.forward_progress(), BlockSynchronizerProgress::Synced(env.block.hash));
    sync.purge();
    assert!(sync.register_block_by_hash(env.block.hash, true));
    let fresh = BlockBuilder::new(env.block.hash, true, MAX_SIMULTANEOUS_PEERS, LATCH_TTL);
    assert_eq!(format!("{:?}", sync.historical.as_ref().unwrap()), format!("{:?}", fresh));
    assert!(sync.forward.is_none());
}

#[test]
fn results_for_unknown_blocks_are_ignored() {
    let env = TestEnv::new(7, 12);
    let mut sync = new_initialized(env.gen_validator_matrix());
    assert!(sync.register_block_by_hash(env.block.hash, false));
    let before = format!("{:?}", sync);
    let r = sync.block_fetched(12345, Ok(FetchedData::FromPeer(env.block.clone(), env.peers[0])));
    assert!(r.is_empty());
    sync.block_executed(12345);
    assert_eq!(format!("{:?}", sync), before);
}

#[test]
fn invalid_fetch_disconnects_peer() {
    let env = TestEnv::new(7, 12);
    let mut sync = new_initialized(env.gen_validator_matrix());
    assert!(sync.register_block_by_hash(env.block.hash, false));
    let r = sync.block_header_fetched(env.block.hash, Err(FetchError::Invalid { id: env.block.hash, peer: 777 }));
    assert_eq!(r.len(), 1);
    assert!(matches!(r[0], Effect::DisconnectFromPeer { peer: 777 }));
    let r = sync.block_header_fetched(env.block.hash, Err(FetchError::TimedOut { id: env.block.hash, peer: 778 }));
    assert!(r.is_empty());
    assert!(forward(&mut sync).peer_list().is_peer_unreliable(778));
    assert_eq!(forward(&mut sync).block_acquisition_state(), BlockAcquisitionState::HaveBlockHash);
}

#[test]
fn items_out_of_order_are_unexpected() {
    let env = TestEnv::new(7, 12);
    let mut sync = new_initialized(env.gen_validator_matrix());
    assert!(sync.register_block_by_hash(env.block.hash, false));
    let b = forward(&mut sync);
    assert_eq!(b.register_block(env.block.clone(), None), Err(BuilderError::UnexpectedItem));
    assert_eq!(
        b.register_finality_signature(signature(&env.block, env.validator_keys[0]), None),
        Err(BuilderError::UnexpectedItem)
    );
    assert_eq!(b.register_block_execution_enqueued(), Err(BuilderError::UnexpectedItem));
    assert_eq!(b.register_block_executed(), Err(BuilderError::UnexpectedItem));
    assert_eq!(b.block_acquisition_state(), BlockAcquisitionState::HaveBlockHash);
}

#[test]
fn approvals_hashes_must_match_the_body() {
    let env = TestEnv::new(7, 12).with_block(make_block(1, 10, vec![0xd1, 0xd2]));
    let mut sync = forward_with_header(&env);
    let n = weak_finality_threshold(env.validator_keys.len());
    let b = forward(&mut sync);
    register_multiple_signatures(b, &env.block, &env.validator_keys[..n]);
    assert!(b.register_block(env.block.clone(), None).is_ok());
    let short = ApprovalsHashes { block_hash: env.block.hash, approvals_hashes: vec![0xa1] };
    assert_eq!(b.register_approvals_hashes(short, Some(env.peers[5])), Err(BuilderError::InvalidApprovalsHashes));
    let other_block = ApprovalsHashes { block_hash: env.block.hash ^ 1, approvals_hashes: vec![0xa1, 0xa2] };
    assert_eq!(b.register_approvals_hashes(other_block, None), Err(BuilderError::InvalidApprovalsHashes));
    assert_eq!(b.block_acquisition_state(), BlockAcquisitionState::HaveBlock);
    assert!(b.peer_list().is_peer_unreliable(env.peers[5]));
    let good = ApprovalsHashes { block_hash: env.block.hash, approvals_hashes: vec![0xa1, 0xa2] };
    assert!(b.register_approvals_hashes(good, None).is_ok());
    assert_eq!(b.block_acquisition_state(), BlockAcquisitionState::HaveApprovalsHashes);
    // A deploy the body does not name, and one under the other deploy's approvals, are refused.
    assert_eq!(b.register_deploy(&deploy(0xd3, 0xa1), None), Err(BuilderError::InvalidDeploy));
    assert_eq!(b.register_deploy(&deploy(0xd1, 0xa2), None), Err(BuilderError::InvalidDeploy));
    assert!(b.register_deploy(&deploy(0xd2, 0xa2), None).is_ok());
    assert_eq!(b.block_acquisition_state(), BlockAcquisitionState::HaveApprovalsHashes);
    assert!(b.register_deploy(&deploy(0xd1, 0xa1), None).is_ok());
    assert_eq!(b.block_acquisition_state(), BlockAcquisitionState::HaveAllDeploys);
    // The remaining signatures bring strict finality.
    register_multiple_signatures(b, &env.block, &env.validator_keys[n..]);
    assert_eq!(b.block_acquisition_state(), BlockAcquisitionState::HaveStrictFinalitySignatures);
}

#[test]
fn results_for_another_block_are_invalid() {
    let env = TestEnv::new(3, 12);
    let mut sync = strict_forward(&env);
    let b = forward(&mut sync);
    let mut other = finalized(&env.block);
    other.block_hash ^= 1;
    assert_eq!(b.register_made_finalized_block(Some(other)), Err(BuilderError::InvalidResult));
    assert_eq!(b.block_acquisition_state(), BlockAcquisitionState::HaveStrictFinalitySignatures);
    // Global state belongs to the historical lane only.
    assert_eq!(
        b.register_global_state_synced(Ok(GlobalStateSynced { state_root_hash: env.block.header.state_root, unreliable_peers: vec![] })),
        Err(BuilderError::UnexpectedItem)
    );

    let mut hist = BlockBuilder::new(env.block.hash, true, MAX_SIMULTANEOUS_PEERS, LATCH_TTL);
    let matrix = env.gen_validator_matrix();
    assert!(hist.register_block_header(env.block.header, None).is_ok());
    assert!(hist.register_era_validator_weights(&matrix));
    register_multiple_signatures(&mut hist, &env.block, &env.validator_keys[..1]);
    assert!(hist.register_block(env.block.clone(), None).is_ok());
    register_multiple_signatures(&mut hist, &env.block, &env.validator_keys[1..]);
    assert_eq!(hist.block_acquisition_state(), BlockAcquisitionState::HaveStrictFinalitySignatures);
    assert_eq!(hist.register_made_finalized_block(None), Err(BuilderError::UnexpectedItem));
    assert_eq!(
        hist.register_global_state_synced(Ok(GlobalStateSynced { state_root_hash: env.block.header.state_root ^ 1, unreliable_peers: vec![] })),
        Err(BuilderError::InvalidResult)
    );
    assert!(hist
        .register_global_state_synced(Ok(GlobalStateSynced { state_root_hash: env.block.header.state_root, unreliable_peers: vec![9] }))
        .is_ok());
    assert_eq!(hist.block_acquisition_state(), BlockAcquisitionState::HaveGlobalState);
    assert!(hist.peer_list().is_peer_unreliable(9));
    assert_eq!(hist.register_execution_results(env.block.hash ^ 1, Some(8)), Err(BuilderError::InvalidResult));
    assert!(hist.peer_list().is_peer_unreliable(8));
    assert!(hist.register_execution_results(env.block.hash, Some(7)).is_ok());
    assert_eq!(hist.block_acquisition_state(), BlockAcquisitionState::Synced);
    assert!(hist.peer_list().is_peer_reliable(7));
}

#[test]
fn conflicting_era_weights_are_refused_by_the_synchronizer() {
    let env = TestEnv::new(3, 12);
    let mut sync = new_initialized(env.gen_validator_matrix());
    assert!(!sync.register_era_validator_weights(EraValidatorWeights {
        era_id: env.block.header.era_id,
        validators: vec![ValidatorWeight { public_key: 1, weight: 1 }],
    }));
    assert_eq!(sync.validator_matrix.eras.len(), 1);
    assert!(sync.register_era_validator_weights(EraValidatorWeights {
        era_id: env.block.header.era_id + 1,
        validators: vec![ValidatorWeight { public_key: 1, weight: 1 }],
    }));
    assert_eq!(sync.validator_matrix.eras.len(), 2);
}

#[test]
fn fwd_sync_is_not_blocked_by_failed_signatures_fetch_within_latch_interval() {
    let env = TestEnv::new(7, 12);
    let num_validators = env.validator_keys.len();
    let mut sync = forward_with_header(&env);
    assert_eq!(
        forward(&mut sync).block_acquisition_state(),
        BlockAcquisitionState::HaveBlockHeader
    );
    let effects = sync.need_next(T0);
    assert_eq!(effects.len(), std::cmp::min(num_validators, MAX_SIMULTANEOUS_PEERS));
    let mut sigs_requested = Vec::new();
    for e in &effects {
        match e {
            Effect::FinalitySignatureFetch(FetcherRequest::Fetch { id, peer }) => {
                assert!(env.peers.contains(peer));
                assert_eq!(id.block_hash, env.block.hash);
                assert_eq!(id.era_id, env.block.header.era_id);
                sigs_requested.push((*peer, *id));
            }
            other => panic!("unexpected effect: {:?}", other),
        }
    }
    let mut generated_effects = Vec::new();
    for (peer, id) in sigs_requested {
        let r = sync.finality_signature_fetched(env.block.hash, Err(FetchError::Absent { id, peer }));
        generated_effects.extend(r);
        // Within the latch interval nothing is asked again.
        generated_effects.extend(sync.need_next(T0 + 1));
    }
    assert!(generated_effects.is_empty());
    // Once the latch expires, signatures are asked for again, from other peers.
    let effects = sync.need_next(T0 + LATCH_TTL);
    assert!(!effects.is_empty());
    for e in &effects {
        assert!(matches!(e, Effect::FinalitySignatureFetch(_)));
    }
}

#[test]
fn builder_reports_finality_level() {
    let env = TestEnv::new(7, 12);
    let mut sync = new_initialized(env.gen_validator_matrix());
    assert!(sync.register_block_by_hash(env.block.hash, false));
    assert_eq!(forward(&mut sync).signature_weight(), SignatureWeight::Insufficient);
    let mut sync = forward_with_header(&env);
    let b = forward(&mut sync);
    register_multiple_signatures(b, &env.block, &env.validator_keys[..2]);
    assert_eq!(b.signature_weight(), SignatureWeight::Insufficient);
    register_multiple_signatures(b, &env.block, &env.validator_keys[2..3]);
    assert_eq!(b.signature_weight(), SignatureWeight::Weak);
    register_multiple_signatures(b, &env.block, &env.validator_keys[3..5]);
    assert_eq!(b.signature_weight(), SignatureWeight::Strict);
}

#[test]
fn builder_fails_when_strict_finality_cannot_be_reached() {
    let env = TestEnv::new(1, 12);
    let mut matrix = ValidatorMatrix::new();
    assert!(matrix.register_validator_weights(EraValidatorWeights {
        era_id: env.block.header.era_id,
        validators: vec![ValidatorWeight { public_key: env.validator_keys[0], weight: 0 }],
    }));
    let mut sync = new_initialized(matrix);
    assert!(sync.register_block_by_hash(env.block.hash, false));
    sync.register_peers(env.block.hash, &env.peers);
    let matrix = sync.validator_matrix.clone();
    let b = forward(&mut sync);
    assert!(b.register_block_header(env.block.header, None).is_ok());
    assert!(b.register_era_validator_weights(&matrix));
    assert_eq!(b.block_acquisition_state(), BlockAcquisitionState::Failed);
    assert!(sync.need_next(T0).is_empty());
    assert_eq!(sync.forward_progress(), BlockSynchronizerProgress::Failed(env.block.hash));
}
