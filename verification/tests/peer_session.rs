use btc_indexer::db::responses::TrackedAddress;
use btc_indexer::header::decode_block_header;
use btc_indexer::p2p::{
    message_payload_len, select_new_peers, P2pBlock, P2pInput, P2pOutput, P2pTx, PeerAction, PeerEvent, PeerSession,
    MAX_MSG_SIZE,
};

const GENESIS_HEADER: &str = "0100000000000000000000000000000000000000000000000000000000000000000000003ba3edfd7a7b12b27ac72c3e67768f617fc81bc3888a51323a9fb8aa4b1e5e4a29ab5f49ffff001d1dac2b7c";
const GENESIS_HASH: &str = "000000000019d6689c085ae165831e934ff763ae46a2a6c172b3f1b60a8ce26f";

fn internal(display: &str) -> [u8; 32] {
    let mut v = hex::decode(display).unwrap();
    v.reverse();
    v.try_into().unwrap()
}

#[test]
fn handshake_and_header_requests() {
    let mut s = PeerSession::new([5u8; 32], 10, vec![]);
    let a = s.handle(PeerEvent::Version);
    assert!(matches!(a.as_slice(), [PeerAction::SendVerack]));
    let a = s.handle(PeerEvent::Verack);
    assert!(matches!(a.as_slice(), [PeerAction::RequestHeaders(h)] if *h == [5u8; 32]));
    let a = s.handle(PeerEvent::Headers(None));
    assert!(matches!(a.as_slice(), [PeerAction::Sleep { millis: 10000 }]));
    let a = s.handle(PeerEvent::Ping(99));
    assert!(matches!(a.as_slice(), [PeerAction::SendPong(99)]));
    assert!(s.handle(PeerEvent::Inv(3)).is_empty());
    assert!(s.handle(PeerEvent::Other).is_empty());
    assert_eq!(s.current_height, 10);
}

#[test]
fn valid_header_asks_for_the_block_and_invalid_one_closes() {
    let mut s = PeerSession::new([0u8; 32], 0, vec![]);
    let genesis = decode_block_header(GENESIS_HEADER).unwrap();
    let a = s.handle(PeerEvent::Headers(Some(genesis)));
    assert!(matches!(a.as_slice(), [PeerAction::GetBlock(h)] if *h == internal(GENESIS_HASH)));
    let mut bad = genesis;
    bad.nonce = 1;
    let a = s.handle(PeerEvent::Headers(Some(bad)));
    assert!(matches!(a.as_slice(), [PeerAction::Close]));
}

#[test]
fn a_block_advances_the_session() {
    let watched = vec![TrackedAddress { address_id: 1, address: "x".to_string() }];
    let mut s = PeerSession::new([0u8; 32], 100, watched);
    let block = P2pBlock { header: decode_block_header(GENESIS_HEADER).unwrap(), txs: vec![] };
    let a = s.handle(PeerEvent::Block(block));
    assert_eq!(a.len(), 4);
    assert!(matches!(&a[0], PeerAction::SaveOutputs(u) if u.is_empty()));
    assert!(matches!(&a[1], PeerAction::MarkSpent(s) if s.is_empty()));
    assert!(matches!(&a[2], PeerAction::SaveInfo { height: 101, hash } if hash == GENESIS_HASH));
    assert!(matches!(&a[3], PeerAction::RequestHeaders(h) if *h == internal(GENESIS_HASH)));
    assert_eq!(s.current_height, 101);
    assert_eq!(s.current_hash, internal(GENESIS_HASH));
}

#[test]
fn watchlist_refreshes_only_when_its_size_changes() {
    let one = vec![TrackedAddress { address_id: 1, address: "a".to_string() }];
    let mut s = PeerSession::new([0u8; 32], 0, one);
    let same_size = vec![TrackedAddress { address_id: 2, address: "b".to_string() }];
    assert!(!s.refresh_watchlist(same_size));
    assert_eq!(s.watched[0].address, "a");
    let two = vec![
        TrackedAddress { address_id: 2, address: "b".to_string() },
        TrackedAddress { address_id: 3, address: "c".to_string() },
    ];
    assert!(s.refresh_watchlist(two));
    assert_eq!(s.watched.len(), 2);
}

#[test]
fn peer_selection_skips_connected_and_takes_four() {
    let d: Vec<String> = (1..=7).map(|i| format!("10.0.0.{i}:8333")).collect();
    let active = vec!["10.0.0.2:8333".to_string(), "10.0.0.9:8333".to_string()];
    let picked = select_new_peers(&d, &active);
    assert_eq!(picked, vec!["10.0.0.1:8333", "10.0.0.3:8333", "10.0.0.4:8333", "10.0.0.5:8333"]);
    let few = select_new_peers(&d[..2].to_vec(), &active);
    assert_eq!(few, vec!["10.0.0.1:8333"]);
    assert!(select_new_peers(&vec![], &active).is_empty());
    let twice = vec!["10.0.0.1:8333".to_string(), "10.0.0.1:8333".to_string(), "10.0.0.3:8333".to_string()];
    assert_eq!(select_new_peers(&twice, &active), vec!["10.0.0.1:8333", "10.0.0.3:8333"]);
}

#[test]
fn payload_length_limit() {
    let mut header = [0u8; 24];
    header[16..20].copy_from_slice(&(MAX_MSG_SIZE as u32).to_le_bytes());
    assert_eq!(message_payload_len(&header), Ok(MAX_MSG_SIZE));
    header[16..20].copy_from_slice(&(MAX_MSG_SIZE as u32 + 1).to_le_bytes());
    assert_eq!(message_payload_len(&header), Err(MAX_MSG_SIZE as u32 + 1));
    header[16..20].copy_from_slice(&0x0102_0304u32.to_le_bytes());
    assert_eq!(message_payload_len(&header), Err(0x0102_0304));
    header[16..20].copy_from_slice(&300u32.to_le_bytes());
    assert_eq!(message_payload_len(&header), Ok(300));
}

#[test]
fn an_output_spent_in_its_own_block_is_saved_then_marked() {
    let script = hex::decode("76a91462e907b15cbf27d5425399ebf6f0fb50ebb88f1888ac").unwrap();
    let watched = vec![TrackedAddress { address_id: 4, address: "1A1zP1eP5QGefi2DMPTfTL5SLmv7DivfNa".to_string() }];
    let block = P2pBlock {
        header: decode_block_header(GENESIS_HEADER).unwrap(),
        txs: vec![
            P2pTx {
                txid: [3u8; 32],
                inputs: vec![P2pInput { prev_txid: [0u8; 32], prev_vout: u32::MAX, script_sig: vec![], sequence: 0 }],
                outputs: vec![P2pOutput { value: 50, script_pubkey: script }],
            },
            P2pTx {
                txid: [4u8; 32],
                inputs: vec![P2pInput { prev_txid: [3u8; 32], prev_vout: 0, script_sig: vec![], sequence: 0 }],
                outputs: vec![],
            },
        ],
    };
    let mut s = PeerSession::new([0u8; 32], 7, watched);
    let a = s.handle(PeerEvent::Block(block));
    let saved = match &a[0] {
        PeerAction::SaveOutputs(u) => u.clone(),
        other => panic!("unexpected {:?}", other),
    };
    let marked = match &a[1] {
        PeerAction::MarkSpent(m) => m.clone(),
        other => panic!("unexpected {:?}", other),
    };
    assert_eq!(saved.len(), 1);
    assert_eq!(saved[0].txid, "03".repeat(32));
    assert_eq!(saved[0].vout_idx, 0);
    assert_eq!(saved[0].address_id, 4);
    assert_eq!(marked.len(), 1);
    assert_eq!(marked[0].txid, saved[0].txid);
    assert_eq!(marked[0].vout, saved[0].vout_idx);
}
