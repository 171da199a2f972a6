use btc_indexer::db::models::InfoResponse;
use btc_indexer::header::{decode_block_header, BlockHeader};
use btc_indexer::indexer::{resume_point, ChainFollower, FollowerAction, FollowerEvent, FollowerKind, FollowerPhase, InfoError};

const GENESIS_HASH: &str = "000000000019d6689c085ae165831e934ff763ae46a2a6c172b3f1b60a8ce26f";
const BLOCK1_HASH: &str = "00000000839a8e6886ab5951d76f411475428afc90947ee320161bbf18eb6048";
const BLOCK1_HEADER: &str = "010000006fe28c0ab6f1b372c1a6a246ae63f74f931e8365e15a089c68d6190000000000982051fd1e4ba744bbbe680e1fee14677ba1a3c3540bf7b1cdb606e857233e0e61bc6649ffff001d01e36299";

fn internal(display: &str) -> [u8; 32] {
    let mut v = hex::decode(display).unwrap();
    v.reverse();
    v.try_into().unwrap()
}

fn header_with_parent(parent_display: &str) -> BlockHeader {
    BlockHeader {
        version: 1,
        prev_blockhash: internal(parent_display),
        merkle_root: [7u8; 32],
        time: 1,
        bits: 0x1d00ffff,
        nonce: 0,
    }
}

fn step(f: ChainFollower, e: FollowerEvent) -> (ChainFollower, FollowerAction) {
    f.step(e)
}

#[test]
fn indexes_the_next_block_and_records_the_previous_one() {
    let (f, a) = ChainFollower::new(0, GENESIS_HASH.to_string(), FollowerKind::Rpc { max_reorg: 6 });
    assert!(matches!(a, FollowerAction::FetchTip));
    let (f, a) = step(f, FollowerEvent::Tip(5));
    assert!(matches!(a, FollowerAction::FetchBlockHash(1)));
    let (f, a) = step(f, FollowerEvent::BlockHash(BLOCK1_HASH.to_string()));
    assert!(matches!(a, FollowerAction::FetchHeader(ref h) if h == BLOCK1_HASH));
    let header = decode_block_header(BLOCK1_HEADER).unwrap();
    let (f, a) = step(f, FollowerEvent::Header(header));
    match a {
        FollowerAction::ProcessBlock { hash, header: h } => {
            assert_eq!(hash, BLOCK1_HASH);
            assert_eq!(h, header);
        }
        other => panic!("unexpected {other:?}"),
    }
    let (f, a) = step(f, FollowerEvent::Done);
    match a {
        FollowerAction::SaveInfo { height, hash } => {
            assert_eq!(height, 0);
            assert_eq!(hash, GENESIS_HASH);
        }
        other => panic!("unexpected {other:?}"),
    }
    let (f, a) = step(f, FollowerEvent::Done);
    assert!(matches!(a, FollowerAction::Sleep { millis: 1000 }));
    assert_eq!(f.last_height, 1);
    assert_eq!(f.last_block_hash, BLOCK1_HASH);
    let (f, a) = step(f, FollowerEvent::Done);
    assert!(matches!(a, FollowerAction::FetchTip));
    let (_, a) = step(f, FollowerEvent::Tip(1));
    assert!(matches!(a, FollowerAction::Sleep { millis: 120000 }));
}

#[test]
fn legacy_follower_does_not_record_progress() {
    let (f, _) = ChainFollower::new(0, GENESIS_HASH.to_string(), FollowerKind::Legacy);
    let (f, _) = step(f, FollowerEvent::Tip(1));
    let (f, _) = step(f, FollowerEvent::BlockHash(BLOCK1_HASH.to_string()));
    let (f, a) = step(f, FollowerEvent::Header(decode_block_header(BLOCK1_HEADER).unwrap()));
    assert!(matches!(a, FollowerAction::ProcessBlock { .. }));
    let (f, a) = step(f, FollowerEvent::Done);
    assert!(matches!(a, FollowerAction::Sleep { millis: 1000 }));
    assert_eq!(f.last_height, 1);
}

#[test]
fn invalid_proof_of_work_waits_and_retries() {
    let (f, _) = ChainFollower::new(0, GENESIS_HASH.to_string(), FollowerKind::Rpc { max_reorg: 6 });
    let (f, _) = step(f, FollowerEvent::Tip(1));
    let (f, _) = step(f, FollowerEvent::BlockHash(BLOCK1_HASH.to_string()));
    let (f, a) = step(f, FollowerEvent::Header(header_with_parent(GENESIS_HASH)));
    assert!(matches!(a, FollowerAction::Sleep { millis: 60000 }));
    assert_eq!(f.last_height, 0);
    let (_, a) = step(f, FollowerEvent::Done);
    assert!(matches!(a, FollowerAction::FetchTip));
}

#[test]
fn legacy_reorg_goes_back_six_blocks() {
    let last = "11".repeat(32);
    let (f, _) = ChainFollower::new(10, last, FollowerKind::Legacy);
    let (f, _) = step(f, FollowerEvent::Tip(11));
    let (f, _) = step(f, FollowerEvent::BlockHash("22".repeat(32)));
    let (f, a) = step(f, FollowerEvent::Header(header_with_parent(&"33".repeat(32))));
    assert!(matches!(a, FollowerAction::DeleteFrom(4)));
    let (f, a) = step(f, FollowerEvent::Done);
    assert!(matches!(a, FollowerAction::FetchBlockHash(4)));
    assert_eq!(f.last_height, 4);
    let (f, a) = step(f, FollowerEvent::BlockHash("44".repeat(32)));
    assert!(matches!(a, FollowerAction::FetchTip));
    assert_eq!(f.last_block_hash, "44".repeat(32));
}

#[test]
fn legacy_reorg_near_the_start_goes_to_zero() {
    let (f, _) = ChainFollower::new(3, "11".repeat(32), FollowerKind::Legacy);
    let (f, _) = step(f, FollowerEvent::Tip(4));
    let (f, _) = step(f, FollowerEvent::BlockHash("22".repeat(32)));
    let (_, a) = step(f, FollowerEvent::Header(header_with_parent(&"33".repeat(32))));
    assert!(matches!(a, FollowerAction::DeleteFrom(0)));
}

#[test]
fn reorg_search_finds_a_one_block_fork() {
    let old_tip = "aa".repeat(32);
    let new_parent = "bb".repeat(32);
    let ancestor = "cc".repeat(32);
    let (f, _) = ChainFollower::new(7, old_tip.clone(), FollowerKind::Rpc { max_reorg: 1 });
    let (f, _) = step(f, FollowerEvent::Tip(8));
    let (f, _) = step(f, FollowerEvent::BlockHash("dd".repeat(32)));
    let (f, a) = step(f, FollowerEvent::Header(header_with_parent(&new_parent)));
    assert!(matches!(a, FollowerAction::FetchParentHeader(ref h) if *h == new_parent));
    let (f, a) = step(f, FollowerEvent::Header(header_with_parent(&ancestor)));
    assert!(matches!(a, FollowerAction::FetchParentHeader(ref h) if *h == old_tip));
    let (f, a) = step(f, FollowerEvent::Header(header_with_parent(&ancestor)));
    assert!(matches!(a, FollowerAction::RollBack(1)));
    let (f, a) = step(f, FollowerEvent::Done);
    assert!(matches!(a, FollowerAction::FetchBlockHash(6)));
    assert_eq!(f.last_height, 6);
    let (f, a) = step(f, FollowerEvent::BlockHash(ancestor.clone()));
    assert!(matches!(a, FollowerAction::FetchTip));
    assert_eq!(f.last_block_hash, ancestor);
}

#[test]
fn reorg_deeper_than_allowed_halts() {
    let (f, _) = ChainFollower::new(7, "aa".repeat(32), FollowerKind::Rpc { max_reorg: 0 });
    let (f, _) = step(f, FollowerEvent::Tip(8));
    let (f, _) = step(f, FollowerEvent::BlockHash("dd".repeat(32)));
    let (f, a) = step(f, FollowerEvent::Header(header_with_parent(&"bb".repeat(32))));
    assert!(matches!(a, FollowerAction::Halt));
    assert!(matches!(f.phase, FollowerPhase::Halted));
}

#[test]
fn unexpected_event_halts() {
    let (f, _) = ChainFollower::new(0, GENESIS_HASH.to_string(), FollowerKind::Legacy);
    let (_, a) = step(f, FollowerEvent::Done);
    assert!(matches!(a, FollowerAction::Halt));
}

#[test]
fn resume_point_reads_the_recorded_block() {
    let info: InfoResponse = resume_point(Some((5, BLOCK1_HASH.to_string())), 0, [0u8; 32]).unwrap();
    assert_eq!(info.height, 5);
    assert_eq!(info.hash_rpc, BLOCK1_HASH);
    assert_eq!(info.hash_p2p, internal(BLOCK1_HASH));
    let bad = resume_point(Some((5, "xyz".to_string())), 0, [0u8; 32]);
    assert!(matches!(bad, Err(InfoError::InvalidHash)));
    let short = resume_point(Some((5, "00".to_string())), 0, [0u8; 32]);
    assert!(matches!(short, Err(InfoError::InvalidHash)));
}

#[test]
fn resume_point_without_a_row_starts_at_the_given_block() {
    let start = internal(GENESIS_HASH);
    let info = resume_point(None, 0, start).unwrap();
    assert_eq!(info.height, 0);
    assert_eq!(info.hash_rpc, GENESIS_HASH);
    assert_eq!(info.hash_p2p, start);
}

#[test]
fn recorded_block_reads_back() {
    let mut bytes = [0u8; 32];
    for (i, b) in bytes.iter_mut().enumerate() {
        *b = (i as u8).wrapping_mul(37).wrapping_add(11);
    }
    let shown = resume_point(None, 0, bytes).unwrap().hash_rpc;
    let height: u32 = 3_000_000_000;
    let back = resume_point(Some((height as i32, shown.clone())), 0, [0u8; 32]).unwrap();
    assert_eq!(back.height, height);
    assert_eq!(back.hash_rpc, shown);
    assert_eq!(back.hash_p2p, bytes);
}
