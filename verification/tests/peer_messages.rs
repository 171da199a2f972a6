use bitcoin::consensus::serialize;
use bitcoin::p2p::message::{NetworkMessage, RawNetworkMessage};
use bitcoin::p2p::message_blockdata::Inventory;
use bitcoin::Network;
use btc_indexer::header::decode_block_header;
use btc_indexer::p2p::{PeerEvent, MAX_MSG_SIZE};
use btc_indexer::peer_message::{read_peer_message, MessageError};

const GENESIS_HEADER: &str = "0100000000000000000000000000000000000000000000000000000000000000000000003ba3edfd7a7b12b27ac72c3e67768f617fc81bc3888a51323a9fb8aa4b1e5e4a29ab5f49ffff001d1dac2b7c";
const GENESIS_TXID: &str = "4a5e1e4baab89f3a32518a88c31bc87f618f76673e2cc77ab2127b7afdeda33b";

fn internal(display: &str) -> [u8; 32] {
    let mut v = hex::decode(display).unwrap();
    v.reverse();
    v.try_into().unwrap()
}

fn frame(msg: NetworkMessage) -> ([u8; 24], Vec<u8>) {
    let bytes = serialize(&RawNetworkMessage::new(Network::Bitcoin.magic(), msg));
    (bytes[..24].try_into().unwrap(), bytes[24..].to_vec())
}

#[test]
fn simple_messages_are_read() {
    let (h, p) = frame(NetworkMessage::Ping(42));
    assert!(matches!(read_peer_message(&h, &p), Ok(PeerEvent::Ping(42))));
    let (h, p) = frame(NetworkMessage::Verack);
    assert!(matches!(read_peer_message(&h, &p), Ok(PeerEvent::Verack)));
    let (h, p) = frame(NetworkMessage::Inv(vec![]));
    assert!(matches!(read_peer_message(&h, &p), Ok(PeerEvent::Inv(0))));
    let (h, p) = frame(NetworkMessage::Pong(1));
    assert!(matches!(read_peer_message(&h, &p), Ok(PeerEvent::Other)));
    let (h, p) = frame(NetworkMessage::Headers(vec![]));
    assert!(matches!(read_peer_message(&h, &p), Ok(PeerEvent::Headers(None))));
}

#[test]
fn headers_and_blocks_are_read_into_the_library_types() {
    let genesis = bitcoin::blockdata::constants::genesis_block(Network::Bitcoin);
    let expected_header = decode_block_header(GENESIS_HEADER).unwrap();
    let (h, p) = frame(NetworkMessage::Headers(vec![genesis.header]));
    match read_peer_message(&h, &p) {
        Ok(PeerEvent::Headers(Some(hd))) => assert_eq!(hd, expected_header),
        other => panic!("unexpected {:?}", other),
    }
    let (h, p) = frame(NetworkMessage::Block(genesis));
    match read_peer_message(&h, &p) {
        Ok(PeerEvent::Block(b)) => {
            assert_eq!(b.header, expected_header);
            assert_eq!(b.txs.len(), 1);
            let tx = &b.txs[0];
            assert_eq!(tx.txid, internal(GENESIS_TXID));
            assert_eq!(tx.inputs.len(), 1);
            assert_eq!(tx.inputs[0].prev_txid, [0u8; 32]);
            assert_eq!(tx.inputs[0].prev_vout, u32::MAX);
            assert_eq!(tx.inputs[0].sequence, u32::MAX);
            assert_eq!(tx.inputs[0].script_sig.len(), 77);
            assert_eq!(tx.outputs.len(), 1);
            assert_eq!(tx.outputs[0].value, 5_000_000_000);
            assert_eq!(tx.outputs[0].script_pubkey.len(), 67);
        }
        other => panic!("unexpected {:?}", other),
    }
}

#[test]
fn oversized_and_corrupt_messages_are_refused() {
    let (mut h, _) = frame(NetworkMessage::Ping(1));
    h[16..20].copy_from_slice(&(MAX_MSG_SIZE as u32 + 1).to_le_bytes());
    assert!(matches!(read_peer_message(&h, &[]), Err(MessageError::TooLarge(n)) if n == MAX_MSG_SIZE as u32 + 1));
    let (h, mut p) = frame(NetworkMessage::Ping(1));
    p[0] ^= 1;
    assert!(matches!(read_peer_message(&h, &p), Err(MessageError::Malformed)));
}

#[test]
fn only_the_first_header_is_taken_and_inventories_are_counted() {
    let genesis = bitcoin::blockdata::constants::genesis_block(Network::Bitcoin);
    let mut second = genesis.header;
    second.nonce = 7;
    let (h, p) = frame(NetworkMessage::Headers(vec![genesis.header, second]));
    match read_peer_message(&h, &p) {
        Ok(PeerEvent::Headers(Some(hd))) => assert_eq!(hd, decode_block_header(GENESIS_HEADER).unwrap()),
        other => panic!("unexpected {:?}", other),
    }
    let items = vec![
        Inventory::Block(genesis.block_hash()),
        Inventory::Transaction(genesis.txdata[0].compute_txid()),
    ];
    let (h, p) = frame(NetworkMessage::Inv(items));
    assert!(matches!(read_peer_message(&h, &p), Ok(PeerEvent::Inv(2))));
}
