use beerus_core::error::{CoreError, StorageProofError};
use beerus_core::felt::Felt;
use beerus_core::l2_client::{confirmed_block, BlockEventsPager, L2ClientError, MaybePendingBlock, EVENTS_CHUNK_SIZE};
use beerus_core::node::{BlockId, BlockTag, NodeData};
use beerus_core::storage_proof::{proof_from_response, proof_request};

fn felt(bytes: &[u8]) -> Felt {
    Felt::from_byte_slice_be(bytes).unwrap()
}

#[test]
fn confirmed_blocks_are_kept_pending_ones_refused() {
    let ok: Result<MaybePendingBlock<u64, ()>, String> = Ok(MaybePendingBlock::Block(7));
    assert_eq!(confirmed_block(ok).unwrap(), 7);
    let pending: Result<MaybePendingBlock<u64, ()>, String> = Ok(MaybePendingBlock::PendingBlock(()));
    assert!(matches!(confirmed_block(pending), Err(L2ClientError::PendingBlock)));
    let failed: Result<MaybePendingBlock<u64, ()>, String> = Err("timeout".to_string());
    match confirmed_block(failed) {
        Err(L2ClientError::Fetch(m)) => assert_eq!(m, "timeout"),
        other => panic!("unexpected {other:?}"),
    }
}

#[test]
fn events_pager_concatenates_pages_until_no_token() {
    let mut pager: BlockEventsPager<u32> = BlockEventsPager::new();
    let r = pager.next_request().unwrap();
    assert_eq!(r.continuation_token, None);
    assert_eq!(r.chunk_size, EVENTS_CHUNK_SIZE);
    assert_eq!(EVENTS_CHUNK_SIZE, 1024);
    pager.on_page(vec![1, 2], Some("a".to_string()));
    let r = pager.next_request().unwrap();
    assert_eq!(r.continuation_token.as_deref(), Some("a"));
    pager.on_page(vec![], Some("b".to_string()));
    assert_eq!(pager.next_request().unwrap().continuation_token.as_deref(), Some("b"));
    pager.on_page(vec![3], None);
    assert!(pager.done);
    assert!(pager.next_request().is_none());
    assert_eq!(pager.into_events(), vec![1, 2, 3]);
}

#[test]
fn events_pager_single_page() {
    let mut pager: BlockEventsPager<&str> = BlockEventsPager::new();
    pager.on_page(vec!["x"], None);
    assert!(pager.next_request().is_none());
    assert_eq!(pager.into_events(), vec!["x"]);
}

#[test]
fn proof_request_writes_hex_and_uses_the_local_block() {
    let mut node = NodeData::new();
    node.update(50, felt(&[1]));
    let keys = [felt(&[0x0a]), felt(&[0x01, 0x00]), Felt::zero()];
    let req = proof_request(&node, BlockId::Tag(BlockTag::Latest), &felt(&[0xbe, 0xef]), &keys);
    assert!(matches!(req.block_id, BlockId::Number(50)));
    assert_eq!(req.contract_address, "0xbeef");
    assert_eq!(req.keys, vec!["0xa".to_string(), "0x100".to_string(), "0x0".to_string()]);
    let req = proof_request(&node, BlockId::Number(20), &Felt::zero(), &[]);
    assert!(matches!(req.block_id, BlockId::Number(20)));
    assert!(req.keys.is_empty());
}

#[test]
fn proof_response_gives_the_proof_or_the_error() {
    assert_eq!(proof_from_response::<u8>(Some(4), Some("ignored".to_string())).unwrap(), 4);
    match proof_from_response::<u8>(None, Some("bad key".to_string())) {
        Err(CoreError::StorageProof(StorageProofError::Rpc(m))) => assert_eq!(m, "bad key"),
        other => panic!("unexpected {other:?}"),
    }
    assert!(matches!(
        proof_from_response::<u8>(None, None),
        Err(CoreError::StorageProof(StorageProofError::Undefined))
    ));
}
