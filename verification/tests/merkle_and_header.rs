use btc_indexer::db::models::MerkleProof;
use btc_indexer::header::{decode_block_header, HeaderError};
use btc_indexer::merkle::verify_merkle_proof;

const GENESIS_HEADER: &str = "0100000000000000000000000000000000000000000000000000000000000000000000003ba3edfd7a7b12b27ac72c3e67768f617fc81bc3888a51323a9fb8aa4b1e5e4a29ab5f49ffff001d1dac2b7c";

fn display(bytes: &[u8]) -> String {
    let mut v = bytes.to_vec();
    v.reverse();
    hex::encode(v)
}

fn parent_of(left: &[u8], right: &[u8]) -> Vec<u8> {
    let mut data = left.to_vec();
    data.extend_from_slice(right);
    let h = <bitcoin_hashes::sha256d::Hash as bitcoin_hashes::Hash>::hash(&data);
    bitcoin_hashes::Hash::to_byte_array(h).to_vec()
}

#[test]
fn decodes_the_genesis_header() {
    let h = decode_block_header(GENESIS_HEADER).unwrap();
    assert_eq!(h.version, 1);
    assert_eq!(h.prev_blockhash, [0u8; 32]);
    assert_eq!(display(&h.merkle_root), "4a5e1e4baab89f3a32518a88c31bc87f618f76673e2cc77ab2127b7afdeda33b");
    assert_eq!(h.time, 1231006505);
    assert_eq!(h.bits, 0x1d00ffff);
    assert_eq!(h.nonce, 2083236893);
}

#[test]
fn header_errors() {
    assert_eq!(decode_block_header("zz"), Err(HeaderError::InvalidHex));
    assert_eq!(decode_block_header("abc"), Err(HeaderError::InvalidHex));
    assert_eq!(decode_block_header("00ff"), Err(HeaderError::InvalidLength));
    let longer = format!("{GENESIS_HEADER}00");
    assert_eq!(decode_block_header(&longer), Err(HeaderError::InvalidLength));
}

#[test]
fn lone_transaction_is_its_own_root() {
    let txid = "4a5e1e4baab89f3a32518a88c31bc87f618f76673e2cc77ab2127b7afdeda33b";
    let proof = MerkleProof { block_height: 0, merkle: vec![], pos: 0 };
    assert!(verify_merkle_proof(txid, &proof, txid));
    let upper = txid.to_uppercase();
    assert!(verify_merkle_proof(&upper, &proof, txid));
    assert!(!verify_merkle_proof(txid, &proof, &upper));
}

#[test]
fn two_leaf_tree_both_positions() {
    let a: Vec<u8> = (0u8..32).collect();
    let b: Vec<u8> = (100u8..132).collect();
    let root = parent_of(&a, &b);
    let root_text = display(&root);
    let proof_a = MerkleProof { block_height: 5, merkle: vec![display(&b)], pos: 0 };
    assert!(verify_merkle_proof(&display(&a), &proof_a, &root_text));
    let proof_b = MerkleProof { block_height: 5, merkle: vec![display(&a)], pos: 1 };
    assert!(verify_merkle_proof(&display(&b), &proof_b, &root_text));
    let wrong_side = MerkleProof { block_height: 5, merkle: vec![display(&b)], pos: 1 };
    assert!(!verify_merkle_proof(&display(&a), &wrong_side, &root_text));
}

#[test]
fn four_leaf_tree_third_position() {
    let leaves: Vec<Vec<u8>> = (0u8..4).map(|i| vec![i; 32]).collect();
    let l = parent_of(&leaves[0], &leaves[1]);
    let r = parent_of(&leaves[2], &leaves[3]);
    let root = parent_of(&l, &r);
    let proof = MerkleProof { block_height: 1, merkle: vec![display(&leaves[3]), display(&l)], pos: 2 };
    assert!(verify_merkle_proof(&display(&leaves[2]), &proof, &display(&root)));
    assert!(!verify_merkle_proof(&display(&leaves[1]), &proof, &display(&root)));
}
