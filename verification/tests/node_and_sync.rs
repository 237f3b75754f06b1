use beerus_core::felt::Felt;
use beerus_core::node::{BlockId, BlockTag, NodeData, VerifiedBlock};
use beerus_core::sync::{
    L1Source, L1Update, L2Verifier, LocalSyncState, SyncError, UpdateType, VerifierCommand,
    VerifierPhase,
};

fn felt(v: u8) -> Felt {
    Felt::from_byte_slice_be(&[v]).unwrap()
}

#[test]
fn new_node_data_is_empty() {
    for node in [NodeData::new(), NodeData::default()] {
        assert_eq!(node.l1_state_root, Felt::zero());
        assert_eq!(node.l1_block_number, 0);
        assert_eq!(node.verified_block, VerifiedBlock::LocallyVerified(0));
        assert_eq!(node.sync_root, Felt::zero());
        assert_eq!(node.sync_block_number, 0);
    }
}

#[test]
fn update_records_the_proven_block_and_root() {
    let mut node = NodeData::new();
    node.update(42, felt(7));
    assert_eq!(node.l1_block_number, 42);
    assert_eq!(node.l1_state_root, felt(7));
    assert_eq!(node.sync_block_number, 0);
    assert_eq!(node.verified_block, VerifiedBlock::LocallyVerified(0));
}

#[test]
fn only_l1_synchronized_states_change_the_node() {
    let mut node = NodeData::new();
    node.apply_sync_state(&LocalSyncState { block_number: 9, state_root: felt(3), type_: UpdateType::L2Verified });
    assert_eq!(node.l1_block_number, 0);
    assert_eq!(node.l1_state_root, Felt::zero());
    node.apply_sync_state(&LocalSyncState { block_number: 8, state_root: felt(4), type_: UpdateType::L1Synchronized });
    assert_eq!(node.l1_block_number, 8);
    assert_eq!(node.l1_state_root, felt(4));
}

#[test]
fn historical_block_numbers_are_kept_others_fall_back_to_the_local_block() {
    let mut node = NodeData::new();
    node.update(100, felt(1));
    assert!(matches!(node.local_block_id(BlockId::Number(99)), BlockId::Number(99)));
    assert!(matches!(node.local_block_id(BlockId::Number(100)), BlockId::Number(100)));
    assert!(matches!(node.local_block_id(BlockId::Number(150)), BlockId::Number(100)));
    assert!(matches!(node.local_block_id(BlockId::Tag(BlockTag::Latest)), BlockId::Number(100)));
    assert!(matches!(node.local_block_id(BlockId::Tag(BlockTag::Pending)), BlockId::Number(100)));
    assert!(matches!(node.local_block_id(BlockId::Hash(felt(5))), BlockId::Number(100)));
}

#[test]
fn l1_source_forwards_only_newer_blocks() {
    let mut source = L1Source::new();
    assert_eq!(source.last_update, 0);
    assert!(source.on_poll(felt(1), 0).is_none());
    let u = source.on_poll(felt(2), 5).unwrap();
    assert_eq!(u.block_number, 5);
    assert_eq!(u.state_root, felt(2));
    assert!(source.on_poll(felt(3), 5).is_none());
    assert!(source.on_poll(felt(3), 4).is_none());
    assert_eq!(source.last_update, 5);
    let u = source.on_poll(felt(4), 6).unwrap();
    assert_eq!(u.block_number, 6);
}

#[test]
fn l1_source_forwarded_numbers_strictly_increase() {
    let mut source = L1Source::new();
    let polls = [3u64, 1, 3, 7, 2, 8, 8, 20, 19];
    let forwarded: Vec<u64> = polls
        .iter()
        .filter_map(|n| source.on_poll(felt(1), *n).map(|u| u.block_number))
        .collect();
    assert_eq!(forwarded, vec![3, 7, 8, 20]);
}

#[test]
fn verifier_reports_l1_state_then_catches_up_block_by_block() {
    let mut v = L2Verifier::new();
    let (state, cmd) = v.on_l1_update(L1Update { block_number: 10, state_root: felt(9) });
    assert_eq!(state.block_number, 10);
    assert_eq!(state.state_root, felt(9));
    assert_eq!(state.type_, UpdateType::L1Synchronized);
    assert_eq!(cmd, VerifierCommand::FetchLatestBlock);
    assert_eq!(v.phase, VerifierPhase::AwaitingLatestBlock { from: 10 });

    let mut fetched = vec![];
    let (latest, mut cmd) = v.on_latest_block(12, felt(77));
    assert_eq!(latest.block_number, 12);
    assert_eq!(latest.state_root, felt(77));
    assert_eq!(latest.type_, UpdateType::L2Unproven);
    while let VerifierCommand::FetchBlock(h) = cmd {
        fetched.push(h);
        let (state, next) = v.on_block(h, felt(h as u8), felt(h as u8)).unwrap();
        assert_eq!(state.block_number, h);
        assert_eq!(state.state_root, felt(h as u8));
        assert_eq!(state.type_, UpdateType::L2Verified);
        cmd = next;
    }
    assert_eq!(fetched, vec![11, 12, 13]);
    assert_eq!(cmd, VerifierCommand::ReceiveL1Update);
    assert_eq!(v.phase, VerifierPhase::AwaitingL1Update);
}

#[test]
fn verifier_waits_for_l1_when_l2_is_behind() {
    let mut v = L2Verifier::new();
    v.on_l1_update(L1Update { block_number: 10, state_root: felt(9) });
    let (latest, cmd) = v.on_latest_block(9, felt(4));
    assert_eq!(latest.type_, UpdateType::L2Unproven);
    assert_eq!(latest.block_number, 9);
    assert_eq!(cmd, VerifierCommand::ReceiveL1Update);
    assert_eq!(v.phase, VerifierPhase::AwaitingL1Update);
}

#[test]
fn verifier_stops_at_an_inconsistent_block_hash() {
    let mut v = L2Verifier::new();
    v.on_l1_update(L1Update { block_number: 3, state_root: felt(9) });
    assert_eq!(v.on_latest_block(10, felt(1)).1, VerifierCommand::FetchBlock(4));
    assert!(v.on_block(4, felt(1), felt(1)).is_ok());
    let err = v.on_block(5, felt(1), felt(2)).unwrap_err();
    assert_eq!(err, SyncError::InconsistentBlockHash { height: 5 });
    assert_eq!(v.phase, VerifierPhase::Finished);
}

#[test]
fn verifier_stops_when_l1_updates_end() {
    let mut v = L2Verifier::new();
    assert_eq!(v.on_l1_closed(), VerifierCommand::Stop);
    assert_eq!(v.phase, VerifierPhase::Finished);
}

#[test]
fn latest_l2_block_becomes_the_unproven_local_state() {
    let mut node = NodeData::new();
    node.update(5, felt(1));
    node.record_unproven(9, felt(2));
    assert_eq!(node.sync_block_number, 9);
    assert_eq!(node.sync_root, felt(2));
    assert_eq!(node.l1_block_number, 5);
    node.apply_sync_state(&LocalSyncState { block_number: 11, state_root: felt(3), type_: UpdateType::L2Unproven });
    assert_eq!(node.sync_block_number, 11);
    assert_eq!(node.sync_root, felt(3));
    assert_eq!(node.l1_block_number, 5);
    assert_eq!(node.l1_state_root, felt(1));
}

#[test]
fn l1_source_started_from_the_node_ignores_older_blocks() {
    let mut source = L1Source::from_last(10);
    assert_eq!(source.last_update, 10);
    assert!(source.on_poll(felt(1), 10).is_none());
    assert!(source.on_poll(felt(1), 3).is_none());
    assert_eq!(source.on_poll(felt(1), 11).unwrap().block_number, 11);
}

#[test]
fn one_poll_round_updates_the_node() {
    let mut node = NodeData::new();
    node.update(4, felt(1));
    let mut source = L1Source::from_last(node.l1_block_number);
    let mut verifier = L2Verifier::new();
    let update = source.on_poll(felt(6), 7).unwrap();
    let (s1, _) = verifier.on_l1_update(update);
    node.apply_sync_state(&s1);
    let (s2, cmd) = verifier.on_latest_block(9, felt(8));
    node.apply_sync_state(&s2);
    assert_eq!(node.l1_block_number, 7);
    assert_eq!(node.l1_state_root, felt(6));
    assert_eq!(node.sync_block_number, 9);
    assert_eq!(node.sync_root, felt(8));
    assert_eq!(cmd, VerifierCommand::FetchBlock(8));
}

#[test]
fn verifier_reports_come_in_rounds() {
    let mut v = L2Verifier::new();
    let mut types = vec![];
    for (l1, latest) in [(2u64, 3u64), (5, 4), (6, 6)] {
        let (s, _) = v.on_l1_update(L1Update { block_number: l1, state_root: felt(1) });
        types.push(s.type_);
        let (s, mut cmd) = v.on_latest_block(latest, felt(2));
        types.push(s.type_);
        while let VerifierCommand::FetchBlock(h) = cmd {
            let (s, next) = v.on_block(h, felt(3), felt(3)).unwrap();
            types.push(s.type_);
            cmd = next;
        }
        assert_eq!(cmd, VerifierCommand::ReceiveL1Update);
    }
    let (a, u, v2) = (UpdateType::L1Synchronized, UpdateType::L2Unproven, UpdateType::L2Verified);
    assert_eq!(types, vec![a, u, v2, v2, a, u, a, u, v2]);
}
