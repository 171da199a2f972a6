use btc_indexer::db::models::{MerkleProof, Status, TVin, TVout, TX};
use btc_indexer::db::responses::TrackedAddress;
use btc_indexer::header::{decode_block_header, BlockHeader};
use btc_indexer::p2p::{plan_p2p_block, P2pBlock, P2pInput, P2pOutput, P2pTx};
use btc_indexer::tracking::{
    legacy_new_transaction, legacy_utxos, plan_legacy_tx, plan_rpc_tx, proof_inputs_are_hex,
    rpc_utxo_payloads, spent_outpoints, tx_in_block,
};

const GENESIS_HEADER: &str = "0100000000000000000000000000000000000000000000000000000000000000000000003ba3edfd7a7b12b27ac72c3e67768f617fc81bc3888a51323a9fb8aa4b1e5e4a29ab5f49ffff001d1dac2b7c";
const GENESIS_HASH: &str = "000000000019d6689c085ae165831e934ff763ae46a2a6c172b3f1b60a8ce26f";
const GENESIS_TXID: &str = "4a5e1e4baab89f3a32518a88c31bc87f618f76673e2cc77ab2127b7afdeda33b";
const SATOSHI_ADDRESS: &str = "1A1zP1eP5QGefi2DMPTfTL5SLmv7DivfNa";
const SATOSHI_SCRIPT: &str = "76a91462e907b15cbf27d5425399ebf6f0fb50ebb88f1888ac";

fn out(addr: Option<&str>, value: u64) -> TVout {
    TVout { scriptpubkey: "51".to_string(), scriptpubkey_address: addr.map(|a| a.to_string()), value }
}

fn sample_tx(block_hash: Option<&str>, block_time: Option<i64>) -> TX {
    TX {
        txid: GENESIS_TXID.to_string(),
        version: 2,
        locktime: 0,
        vin: vec![
            TVin { txid: "aa".repeat(32), vout: 3, prevout: Some(out(Some("bc1qwatched"), 50)), scriptsig: "00".to_string(), sequence: 7 },
            TVin { txid: "bb".repeat(32), vout: 1, prevout: Some(out(Some("bc1qother"), 20)), scriptsig: "".to_string(), sequence: 8 },
            TVin { txid: "cc".repeat(32), vout: 0, prevout: None, scriptsig: "".to_string(), sequence: 9 },
        ],
        vout: vec![out(Some("bc1qother"), 1), out(Some("bc1qwatched"), 2500), out(None, 3), out(Some("bc1qwatched"), 4)],
        status: Status { confirmed: true, block_height: Some(812), block_hash: block_hash.map(|h| h.to_string()), block_time },
        fee: 100,
    }
}

fn watch() -> TrackedAddress {
    TrackedAddress { address_id: 42, address: "bc1qwatched".to_string() }
}

#[test]
fn block_membership_compares_hashes() {
    let tx = sample_tx(Some(GENESIS_HASH), None);
    assert!(tx_in_block(&tx, &GENESIS_HASH.to_string()));
    assert!(!tx_in_block(&tx, &"ff".repeat(32)));
    assert!(!tx_in_block(&sample_tx(None, None), &GENESIS_HASH.to_string()));
}

#[test]
fn spent_outpoints_from_the_address_only() {
    let tx = sample_tx(None, None);
    let spent = spent_outpoints(&tx, &"bc1qwatched".to_string());
    assert_eq!(spent.len(), 1);
    assert_eq!(spent[0].txid, "aa".repeat(32));
    assert_eq!(spent[0].vout, 3);
}

#[test]
fn rpc_payloads_for_each_paying_output() {
    let tx = sample_tx(Some(GENESIS_HASH), Some(1_700_000_000));
    let p = rpc_utxo_payloads(&tx, &watch(), &GENESIS_HASH.to_string());
    assert_eq!(p.len(), 2);
    assert_eq!(p[0].vout_idx, 1);
    assert_eq!(p[0].value, 2500);
    assert_eq!(p[1].vout_idx, 3);
    assert_eq!(p[1].value, 4);
    assert_eq!(p[0].address_id, 42);
    assert_eq!(p[0].block_hash, GENESIS_HASH);
    assert_eq!(p[0].block_time, 1_700_000_000);
    assert_eq!(p[0].block_height, 812);
    assert!(p[0].is_confirmed);
    assert_eq!(p[0].vouts.len(), 4);
    assert_eq!(p[0].vouts[2].n, 2);
    assert_eq!(p[0].vouts[1].address.as_deref(), Some("bc1qwatched"));
    assert_eq!(p[0].vins.len(), 3);
    assert_eq!(p[0].vins[0].sequence, 7);
}

#[test]
fn rpc_payload_time_and_height_defaults() {
    let mut tx = sample_tx(Some(GENESIS_HASH), Some(i64::MAX));
    tx.status.block_height = None;
    let p = rpc_utxo_payloads(&tx, &watch(), &GENESIS_HASH.to_string());
    assert_eq!(p[0].block_time, 0);
    assert_eq!(p[0].block_height, 0);
    let none = rpc_utxo_payloads(&sample_tx(Some(GENESIS_HASH), None), &watch(), &GENESIS_HASH.to_string());
    assert_eq!(none[0].block_time, 0);
}

#[test]
fn legacy_records() {
    let tx = sample_tx(Some(GENESIS_HASH), Some(5));
    let t = legacy_new_transaction(&tx);
    assert_eq!(t.vouts, Some(vec![0, 1, 2, 3]));
    assert_eq!(t.vins, Some(vec![3, 1, 0]));
    assert_eq!(t.block_time, Some(5));
    assert_eq!(t.block_hash.as_deref(), Some(GENESIS_HASH));
    let u = legacy_utxos(&tx, &watch());
    assert_eq!(u.len(), 2);
    assert_eq!(u[1].vout_idx, 3);
    assert_eq!(u[1].block_height, Some(812));
    assert!(!u[1].is_spent);
}

#[test]
fn plans_follow_the_merkle_proof() {
    let header: BlockHeader = decode_block_header(GENESIS_HEADER).unwrap();
    let tx = sample_tx(Some(GENESIS_HASH), None);
    let proof = MerkleProof { block_height: 0, merkle: vec![], pos: 0 };
    assert!(proof_inputs_are_hex(&tx.txid, &proof));
    let plan = plan_rpc_tx(&tx, &watch(), &GENESIS_HASH.to_string(), &header, &proof);
    assert_eq!(plan.utxos.len(), 2);
    assert_eq!(plan.spent.len(), 1);
    let legacy = plan_legacy_tx(&tx, &watch(), &header, &proof).unwrap();
    assert_eq!(legacy.utxos.len(), 2);
    let bad_proof = MerkleProof { block_height: 0, merkle: vec!["00".repeat(32)], pos: 0 };
    let plan = plan_rpc_tx(&tx, &watch(), &GENESIS_HASH.to_string(), &header, &bad_proof);
    assert!(plan.utxos.is_empty() && plan.spent.is_empty());
    assert!(plan_legacy_tx(&tx, &watch(), &header, &bad_proof).is_none());
    assert!(!proof_inputs_are_hex("zz", &proof));
    let odd = MerkleProof { block_height: 0, merkle: vec!["abc".to_string()], pos: 0 };
    assert!(!proof_inputs_are_hex(GENESIS_TXID, &odd));
}

fn satoshi_block(extra_outputs: Vec<P2pOutput>) -> P2pBlock {
    let header = decode_block_header(GENESIS_HEADER).unwrap();
    let mut outputs = vec![P2pOutput { value: 5_000_000_000, script_pubkey: hex::decode(SATOSHI_SCRIPT).unwrap() }];
    outputs.extend(extra_outputs);
    P2pBlock {
        header,
        txs: vec![
            P2pTx {
                txid: [1u8; 32],
                inputs: vec![P2pInput { prev_txid: [0u8; 32], prev_vout: u32::MAX, script_sig: vec![0xab], sequence: u32::MAX }],
                outputs,
            },
            P2pTx {
                txid: [2u8; 32],
                inputs: vec![
                    P2pInput { prev_txid: [1u8; 32], prev_vout: 0, script_sig: vec![], sequence: 1 },
                    P2pInput { prev_txid: [0u8; 32], prev_vout: 5, script_sig: vec![], sequence: 1 },
                ],
                outputs: vec![P2pOutput { value: 9, script_pubkey: vec![0x6a] }],
            },
        ],
    }
}

#[test]
fn p2p_plan_saves_watched_outputs_and_marks_real_inputs() {
    let watched = vec![
        TrackedAddress { address_id: 7, address: SATOSHI_ADDRESS.to_string() },
        TrackedAddress { address_id: 8, address: "bc1qsomeoneelse".to_string() },
        TrackedAddress { address_id: 9, address: SATOSHI_ADDRESS.to_string() },
    ];
    let plan = plan_p2p_block(&satoshi_block(vec![]), 1, &watched);
    assert_eq!(plan.utxos.len(), 1);
    let u = &plan.utxos[0];
    assert_eq!(u.address_id, 9);
    assert_eq!(u.txid, "01".repeat(32));
    assert_eq!(u.vout_idx, 0);
    assert_eq!(u.value, 5_000_000_000);
    assert_eq!(u.block_hash, GENESIS_HASH);
    assert_eq!(u.block_time, 1231006505);
    assert_eq!(u.block_height, 1);
    assert_eq!(u.vouts[0].scriptpubkey, SATOSHI_SCRIPT);
    assert_eq!(u.vouts[0].address.as_deref(), Some(SATOSHI_ADDRESS));
    assert_eq!(u.vins[0].scriptsig, "ab");
    assert_eq!(u.vins[0].txid, "00".repeat(32));
    assert_eq!(u.vins[0].vout, u32::MAX);
    assert_eq!(plan.spent.len(), 2);
    assert_eq!(plan.spent[0].txid, "01".repeat(32));
    assert_eq!(plan.spent[0].vout, 0);
    assert_eq!(plan.spent[1].vout, 5);
}

#[test]
fn p2p_plan_ignores_unwatched_and_nonstandard_outputs() {
    let watched = vec![TrackedAddress { address_id: 8, address: "bc1qsomeoneelse".to_string() }];
    let plan = plan_p2p_block(&satoshi_block(vec![]), 1, &watched);
    assert!(plan.utxos.is_empty());
}

#[test]
fn rpc_payload_time_range_bounds() {
    let h = GENESIS_HASH.to_string();
    for (t, saved) in [
        (8_210_266_876_799i64, 8_210_266_876_799i64),
        (8_210_266_876_800, 0),
        (-8_334_601_228_800, -8_334_601_228_800),
        (-8_334_601_228_801, 0),
    ] {
        let p = rpc_utxo_payloads(&sample_tx(Some(GENESIS_HASH), Some(t)), &watch(), &h);
        assert_eq!(p[0].block_time, saved);
    }
}
