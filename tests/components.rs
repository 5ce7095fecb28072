use block_sync::deploy_acceptor::{AcceptorEffect, DeployAcceptor};
use block_sync::deploy_buffer::{BlockProposerState, BufferedDeploy, ProtoBlockDeploys};
use block_sync::fetcher::{FetchDecision, FetchDispatcher, FetchItemId, FETCH_TIMEOUT};
use block_sync::hashing::{compute_body_hash, digest, encode_header};
use block_sync::peer_list::PeerList;
use block_sync::requests::{LinearChainRequest, NetworkRequest};
use block_sync::transaction_category::TransactionCategory;
use block_sync::types::{
    Block, BlockBody, BlockHeader, DeployHeader, FinalizedBlock, MinimalBlockInfo,
};
use block_sync::validator_matrix::{
    signature_weight, EraValidatorWeights, SignatureWeight, ValidatorMatrix, ValidatorWeight,
};

fn header() -> BlockHeader {
    BlockHeader {
        parent: 1,
        height: 2,
        era_id: 3,
        state_root: 4,
        body_hash: 5,
        timestamp: 6,
        is_switch_block: true,
    }
}

#[test]
fn digest_is_blake2b_256_prefix() {
    // BLAKE2b-256 of the empty string starts 0e 57 51 c0 26 e5 43 b2.
    assert_eq!(digest(&Vec::new()), 0xb243_e526_c051_570e);
    // BLAKE2b-256 of "abc" starts bd dd 81 3c 63 42 39 72.
    assert_eq!(digest(&b"abc".to_vec()), 0x7239_4263_3c81_ddbd);
}

#[test]
fn digest_is_not_the_input() {
    let data = vec![1u8, 2, 3, 4, 5, 6, 7, 8];
    assert_ne!(digest(&data), u64::from_le_bytes([1, 2, 3, 4, 5, 6, 7, 8]));
}

#[test]
fn header_encoding_is_little_endian_fields() {
    let bytes = encode_header(&header());
    assert_eq!(bytes.len(), 49);
    assert_eq!(&bytes[0..8], &[1, 0, 0, 0, 0, 0, 0, 0]);
    assert_eq!(&bytes[40..48], &[6, 0, 0, 0, 0, 0, 0, 0]);
    assert_eq!(bytes[48], 1);
    assert_eq!(header().block_hash(), digest(&bytes));
}

#[test]
fn header_hash_depends_on_every_field() {
    let h = header();
    let mut other = h;
    other.is_switch_block = false;
    assert_ne!(h.block_hash(), other.block_hash());
    let mut other = h;
    other.state_root = 40;
    assert_ne!(h.block_hash(), other.block_hash());
}

#[test]
fn body_hash_depends_on_order() {
    assert_ne!(compute_body_hash(&vec![1, 2]), compute_body_hash(&vec![2, 1]));
    assert_eq!(compute_body_hash(&Vec::new()), digest(&Vec::new()));
}

#[test]
fn peer_list_tracks_quality() {
    let mut list = PeerList::new();
    list.register_peers(&vec![1, 2, 3, 2]);
    assert_eq!(list.peers.len(), 3);
    assert!(list.contains(2));
    assert!(!list.is_peer_reliable(1));
    list.promote_peer(1);
    list.disqualify_peer(2);
    assert!(list.is_peer_reliable(1));
    assert!(list.is_peer_unreliable(2));
    // Registering again keeps the quality.
    list.register_peer(2);
    assert!(list.is_peer_unreliable(2));
    list.promote_peer(2);
    assert!(list.is_peer_reliable(2));
    assert!(!list.is_peer_unreliable(2));
}

#[test]
fn sampling_prefers_peers_not_unreliable() {
    let mut list = PeerList::new();
    assert!(list.qualified_peers_up_to(5).is_empty());
    list.register_peers(&vec![1, 2, 3, 4, 5, 6, 7]);
    list.disqualify_peer(1);
    list.disqualify_peer(2);
    let sample = list.qualified_peers_up_to(10);
    assert_eq!(sample.len(), 5);
    assert!(!sample.contains(&1) && !sample.contains(&2));
    let sample = list.qualified_peers_up_to(3);
    assert_eq!(sample.len(), 3);
    let mut sorted = sample.clone();
    sorted.sort();
    sorted.dedup();
    assert_eq!(sorted.len(), 3);
    // With only unreliable peers left, those are sampled.
    let mut bad = PeerList::new();
    bad.disqualify_peer(8);
    bad.disqualify_peer(9);
    let sample = bad.qualified_peers_up_to(5);
    assert_eq!(sample.len(), 2);
}

fn weights(era_id: u64, w: &[(u64, u64)]) -> EraValidatorWeights {
    EraValidatorWeights {
        era_id,
        validators: w.iter().map(|(k, v)| ValidatorWeight { public_key: *k, weight: *v }).collect(),
    }
}

#[test]
fn validator_matrix_is_idempotent_and_rejects_conflicts() {
    let mut m = ValidatorMatrix::new();
    assert!(m.register_validator_weights(weights(1, &[(10, 100), (11, 200)])));
    assert!(m.register_validator_weights(weights(1, &[(10, 100), (11, 200)])));
    assert!(!m.register_validator_weights(weights(1, &[(10, 100), (11, 300)])));
    assert_eq!(m.eras.len(), 1);
    assert!(!m.register_validator_weights(weights(2, &[(10, 1), (10, 2)])));
    assert!(!m.register_validator_weights(weights(3, &[(10, u64::MAX), (11, 1)])));
    assert_eq!(m.eras.len(), 1);
    let w = m.validator_weights(1).unwrap();
    assert_eq!(w.total_weight(), 300);
    assert_eq!(w.signed_weight(&vec![11]), 200);
    assert!(w.contains(10));
    assert!(!w.contains(12));
    assert!(m.validator_weights(2).is_none());
}

#[test]
fn finality_thresholds() {
    // Weak: at least a third; strict: more than two thirds.
    assert_eq!(signature_weight(233, 700), SignatureWeight::Insufficient);
    assert_eq!(signature_weight(234, 700), SignatureWeight::Weak);
    assert_eq!(signature_weight(466, 700), SignatureWeight::Weak);
    assert_eq!(signature_weight(467, 700), SignatureWeight::Strict);
    assert_eq!(signature_weight(200, 600), SignatureWeight::Weak);
    assert_eq!(signature_weight(400, 600), SignatureWeight::Weak);
    assert_eq!(signature_weight(u64::MAX, u64::MAX), SignatureWeight::Strict);
}

#[test]
fn map_payload_keeps_the_rest() {
    let r: NetworkRequest<u64, u32> = NetworkRequest::Gossip { payload: 7, count: 3, exclude: vec![1, 2] };
    match r.map_payload(|p| p as u64 * 2) {
        NetworkRequest::Gossip { payload, count, exclude } => {
            assert_eq!(payload, 14);
            assert_eq!(count, 3);
            assert_eq!(exclude, vec![1, 2]);
        }
        _ => panic!("variant changed"),
    }
    let r: NetworkRequest<u64, u32> = NetworkRequest::SendMessage { dest: 9, payload: 1 };
    assert!(matches!(r.map_payload(|p| p + 1), NetworkRequest::SendMessage { dest: 9, payload: 2 }));
    let r = LinearChainRequest::BlockAtHeight(5, 9u64);
    assert_eq!(r, LinearChainRequest::BlockAtHeight(5, 9));
}

#[test]
fn deploy_acceptor_announces_only_new_deploys() {
    let mut acceptor = DeployAcceptor::new();
    assert_eq!(acceptor.accept(3), AcceptorEffect::PutToStorage { deploy: 3 });
    assert_eq!(
        acceptor.handle_put_to_storage(3, true, true),
        vec![AcceptorEffect::AnnounceNewDeployAccepted { deploy: 3 }, AcceptorEffect::RespondAccepted]
    );
    assert_eq!(acceptor.handle_put_to_storage(3, false, true), vec![AcceptorEffect::RespondAccepted]);
    assert!(acceptor.handle_put_to_storage(3, false, false).is_empty());
}

#[test]
fn transaction_category_by_index() {
    assert_eq!(TransactionCategory::from_index(0), Some(TransactionCategory::Standard));
    assert_eq!(TransactionCategory::from_index(3), Some(TransactionCategory::InstallUpgrade));
    assert_eq!(TransactionCategory::from_index(4), None);
    assert_eq!(TransactionCategory::default(), TransactionCategory::Standard);
    let c = TransactionCategory::random();
    assert!(matches!(
        c,
        TransactionCategory::Standard
            | TransactionCategory::Mint
            | TransactionCategory::Auction
            | TransactionCategory::InstallUpgrade
    ));
}

#[test]
fn minimal_block_info_from_block() {
    let h = header();
    let block = Block { hash: h.block_hash(), header: h, body: BlockBody { deploy_hashes: vec![] } };
    let info = MinimalBlockInfo::from_block(&block);
    assert_eq!(info.hash, block.hash);
    assert_eq!(info.timestamp, 6);
    assert_eq!(info.era_id, 3);
    assert_eq!(info.height, 2);
}

fn buffered(hash: u64, timestamp: u64, ttl: u64) -> BufferedDeploy {
    BufferedDeploy { hash, header: DeployHeader { timestamp, ttl } }
}

fn block_len(blocks: &[ProtoBlockDeploys], hash: u64) -> Option<usize> {
    blocks.iter().find(|b| b.block_hash == hash).map(|b| b.deploys.len())
}

fn empty_state() -> BlockProposerState {
    BlockProposerState { pending: vec![], proposed: vec![], finalized: vec![] }
}

#[test]
fn test_prune() {
    let expired_time = 201;
    let creation_time = 100;
    let test_time = 120;
    let ttl = 100;
    let deploy1 = buffered(1, creation_time, ttl);
    let deploy2 = buffered(2, creation_time, ttl);
    let deploy3 = buffered(3, creation_time, ttl);
    let deploy4 = buffered(4, creation_time + 20, ttl);
    let mut buffer = empty_state();

    // pending
    buffer.add_deploy(creation_time, deploy1);
    buffer.add_deploy(creation_time, deploy2);
    buffer.add_deploy(creation_time, deploy3);
    buffer.add_deploy(creation_time, deploy4);

    // pending => proposed
    let block_hash1 = 0xb1;
    let block_hash2 = 0xb2;
    buffer.added_block(block_hash1, &vec![1]);
    buffer.added_block(block_hash2, &vec![2]);

    // proposed => finalized
    buffer.finalized_block(block_hash1);

    assert_eq!(buffer.pending.len(), 2);
    assert_eq!(block_len(&buffer.proposed, block_hash2), Some(1));
    assert_eq!(block_len(&buffer.finalized, block_hash1), Some(1));

    // test for retained values
    let pruned = buffer.prune(test_time);
    assert_eq!(pruned, 0);

    assert_eq!(buffer.pending.len(), 2);
    assert_eq!(buffer.proposed.len(), 1);
    assert_eq!(block_len(&buffer.proposed, block_hash2), Some(1));
    assert_eq!(buffer.finalized.len(), 1);
    assert_eq!(block_len(&buffer.finalized, block_hash1), Some(1));

    // now move the clock to make some things expire
    let pruned = buffer.prune(expired_time);
    assert_eq!(pruned, 3);

    assert_eq!(buffer.pending.len(), 1); // deploy4 is still valid
    assert_eq!(buffer.proposed.len(), 0);
    assert_eq!(buffer.finalized.len(), 0);
}

#[test]
fn proposer_state_moves_deploys_between_blocks() {
    let mut buffer = empty_state();
    // Expired deploys are not taken.
    buffer.add_deploy(300, buffered(9, 100, 100));
    assert!(buffer.pending.is_empty());
    buffer.add_deploy(100, buffered(1, 100, 100));
    buffer.add_deploy(100, buffered(2, 100, 100));
    // Adding the same hash again replaces the entry.
    buffer.add_deploy(100, buffered(2, 100, 150));
    assert_eq!(buffer.pending.len(), 2);
    assert!(buffer.pending.contains(&buffered(2, 100, 150)));

    buffer.added_block(0xb1, &vec![1, 7]);
    assert_eq!(buffer.pending, vec![buffered(2, 100, 150)]);
    assert_eq!(block_len(&buffer.proposed, 0xb1), Some(1));

    // Orphaning puts the deploys back.
    buffer.orphaned_block(0xb1);
    assert!(buffer.proposed.is_empty());
    assert_eq!(buffer.pending.len(), 2);
    assert!(buffer.pending.contains(&buffered(1, 100, 100)));

    buffer.added_block(0xb2, &vec![1]);
    buffer.finalized_block(0xb2);
    assert_eq!(block_len(&buffer.finalized, 0xb2), Some(1));
    assert_eq!(buffer.pending, vec![buffered(2, 100, 150)]);
    // A finalized deploy is not taken again; unknown blocks change nothing.
    buffer.add_deploy(100, buffered(1, 100, 100));
    assert_eq!(buffer.pending.len(), 1);
    buffer.finalized_block(0xff);
    buffer.orphaned_block(0xff);
    assert_eq!(buffer.pending.len(), 1);
    assert_eq!(buffer.finalized.len(), 1);
}

#[test]
fn deploy_expiry_boundary() {
    let h = DeployHeader { timestamp: 100, ttl: 100 };
    assert!(!h.expired(200));
    assert!(h.expired(201));
    let far = DeployHeader { timestamp: u64::MAX, ttl: u64::MAX };
    assert!(!far.expired(u64::MAX));
}

#[test]
fn should_fetch_from_local() {
    let mut d = FetchDispatcher::new(FETCH_TIMEOUT);
    assert_eq!(d.fetch(FetchItemId::Block(7), 1, true, 0), FetchDecision::FromStorage);
    assert!(d.in_flight.is_empty());
}

#[test]
fn should_fetch_from_peer() {
    let mut d = FetchDispatcher::new(FETCH_TIMEOUT);
    assert_eq!(d.fetch(FetchItemId::Block(7), 1, false, 10), FetchDecision::AskPeer { deadline: 10 + FETCH_TIMEOUT });
    assert_eq!(d.fetch(FetchItemId::Block(7), 1, false, 11), FetchDecision::AlreadyInFlight);
    assert_eq!(d.fetch(FetchItemId::Block(7), 2, false, 11), FetchDecision::AskPeer { deadline: 11 + FETCH_TIMEOUT });
    assert!(d.finish(FetchItemId::Block(7), 1));
    assert!(!d.finish(FetchItemId::Block(7), 1));
    assert_eq!(d.in_flight.len(), 1);
}

#[test]
fn should_timeout_fetch_from_peer() {
    let mut d = FetchDispatcher::new(10);
    assert_eq!(d.fetch(FetchItemId::BlockHeader(3), 4, false, u64::MAX - 5), FetchDecision::AskPeer { deadline: u64::MAX });
    assert_eq!(d.fetch(FetchItemId::Block(3), 4, false, 20), FetchDecision::AskPeer { deadline: 30 });
    assert_eq!(d.overdue(29), vec![]);
    assert_eq!(d.overdue(30), vec![(FetchItemId::Block(3), 4)]);
    assert_eq!(d.overdue(u64::MAX).len(), 2);
    // After the timeout the fetch is closed and can be issued again.
    assert!(d.finish(FetchItemId::BlockHeader(3), 4));
    assert_eq!(d.overdue(u64::MAX), vec![(FetchItemId::Block(3), 4)]);
    assert_eq!(d.fetch(FetchItemId::BlockHeader(3), 4, false, 100), FetchDecision::AskPeer { deadline: 110 });
}

#[test]
fn finalized_block_from_block() {
    let h = header();
    let block = Block { hash: h.block_hash(), header: h, body: BlockBody { deploy_hashes: vec![7, 8] } };
    let fb = FinalizedBlock::from_block(&block);
    assert_eq!(fb.block_hash, block.hash);
    assert_eq!(fb.height(), 2);
    assert_eq!(fb.era_id, 3);
    assert_eq!(fb.timestamp, 6);
    assert_eq!(fb.deploy_hashes, vec![7, 8]);
    let copy = fb.duplicate();
    assert_eq!(copy.deploy_hashes, fb.deploy_hashes);
}
