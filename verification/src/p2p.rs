//! The peer-to-peer indexer: what a full block means for the watched
//! addresses, and how a session with one peer proceeds.

use vstd::prelude::*;
use crate::db::models::{UtxoPayload, UtxoPayloadView, VinJson, VinJsonView, VoutJson, VoutJsonView};
use crate::db::responses::{TrackedAddress, TrackedAddressView};
use crate::header::{block_hash_to_string, hash_display_text, header_block_hash, header_bytes,
    header_pow_valid, proof_of_work_valid, txid_to_string, BlockHeader};
use crate::hexcodec::hex_encode_text;
use crate::merkle::sha256d_digest;
use crate::tracking::{naive_timestamp, SpentOutpoint, SpentOutpointView};

verus! {

/// An input of a block's transaction: the outpoint it spends and its script.
#[derive(Debug, Clone)]
pub struct P2pInput {
    pub prev_txid: [u8; 32],
    pub prev_vout: u32,
    pub script_sig: Vec<u8>,
    pub sequence: u32,
}

/// An output of a block's transaction: its value in satoshi and its script.
#[derive(Debug, Clone)]
pub struct P2pOutput {
    pub value: u64,
    pub script_pubkey: Vec<u8>,
}

/// A transaction of a block, with its id in internal byte order.
#[derive(Debug, Clone)]
pub struct P2pTx {
    pub txid: [u8; 32],
    pub inputs: Vec<P2pInput>,
    pub outputs: Vec<P2pOutput>,
}

/// A full block received from a peer.
#[derive(Debug, Clone)]
pub struct P2pBlock {
    pub header: BlockHeader,
    pub txs: Vec<P2pTx>,
}

/// What a block asks of the database: the outputs that pay watched
/// addresses, to save, and every outpoint its inputs spend, to mark spent
/// once the outputs are saved (so that an output spent later in the same
/// block ends up spent).
#[derive(Debug, Clone)]
pub struct BlockPlan {
    pub spent: Vec<SpentOutpoint>,
    pub utxos: Vec<UtxoPayload>,
}

/// The address, as text, that an output script pays on the Bitcoin main
/// network, if it is of a standard form (what `Address::from_script` gives).
pub uninterp spec fn script_address(script: Seq<u8>) -> Option<Seq<char>>;

/// `bitcoin::Address::from_script` on the main network, shown with
/// `ToString`: named `script_address` of the script's bytes.
#[verifier::external_body]
fn address_from_script(script: &[u8]) -> (r: Option<String>)
    ensures
        r.deep_view() == script_address(script@),
{
    match bitcoin::Address::from_script(bitcoin::Script::from_bytes(script), bitcoin::Network::Bitcoin) {
        Ok(a) => Some(a.to_string()),
        Err(_) => None,
    }
}

/// `bitcoin::Script::to_hex_string`: the script's bytes in lower case hexadecimal.
#[verifier::external_body]
fn script_to_hex_string(script: &[u8]) -> (r: String)
    ensures
        r@ == hex_encode_text(script@),
{
    bitcoin::Script::from_bytes(script).to_hex_string()
}

/// `bitcoin::OutPoint::is_null`: the outpoint of a coinbase input, with an
/// all-zero transaction id and the largest index.
#[verifier::external_body]
fn outpoint_is_null(txid: &[u8; 32], vout: u32) -> (r: bool)
    ensures
        r == (txid@ == Seq::new(32, |i: int| 0u8) && vout == u32::MAX),
{
    bitcoin::OutPoint { txid: <bitcoin::Txid as bitcoin::hashes::Hash>::from_byte_array(*txid), vout }.is_null()
}

/// An input, as stored.
pub open spec fn p2p_vin_json(i: P2pInput) -> VinJsonView {
    VinJsonView {
        txid: hash_display_text(i.prev_txid@),
        vout: i.prev_vout,
        scriptsig: hex_encode_text(i.script_sig@),
        sequence: i.sequence as u64,
    }
}

/// The output at position `n`, as stored.
pub open spec fn p2p_vout_json(o: P2pOutput, n: int) -> VoutJsonView {
    VoutJsonView {
        n: n as usize,
        value: o.value,
        scriptpubkey: hex_encode_text(o.script_pubkey@),
        address: script_address(o.script_pubkey@),
    }
}

/// The id under which an address is watched: that of the last entry for it.
pub open spec fn watched_id(watched: Seq<TrackedAddressView>, address: Seq<char>) -> Option<i32>
    decreases watched.len(),
{
    if watched.len() == 0 {
        None
    } else if watched.last().address == address {
        Some(watched.last().address_id)
    } else {
        watched_id(watched.drop_last(), address)
    }
}

/// The outputs, in order, that pay a watched address: each position with
/// the id under which its address is watched.
pub open spec fn watched_outputs(outputs: Seq<P2pOutput>, watched: Seq<TrackedAddressView>) -> Seq<(int, i32)>
    decreases outputs.len(),
{
    if outputs.len() == 0 {
        Seq::empty()
    } else {
        let before = watched_outputs(outputs.drop_last(), watched);
        match script_address(outputs.last().script_pubkey@) {
            Some(a) => match watched_id(watched, a) {
                Some(id) => before.push((outputs.len() - 1, id)),
                None => before,
            },
            None => before,
        }
    }
}

/// The output at position `k` of a block's transaction, saved for the watched
/// address with id `id`.
pub open spec fn p2p_payload(tx: P2pTx, k: int, id: i32, block_hash: Seq<char>, block_time: i64, height: u32) -> UtxoPayloadView {
    UtxoPayloadView {
        address_id: id,
        txid: hash_display_text(tx.txid@),
        vout_idx: k as i32,
        block_hash: block_hash,
        block_time: block_time,
        vouts: Seq::new(tx.outputs@.len(), |n: int| p2p_vout_json(tx.outputs@[n], n)),
        vins: Seq::new(tx.inputs@.len(), |n: int| p2p_vin_json(tx.inputs@[n])),
        value: tx.outputs@[k].value as i64,
        block_height: height as i32,
        is_confirmed: true,
    }
}

/// The outputs of one transaction to save.
pub open spec fn p2p_tx_payloads(tx: P2pTx, watched: Seq<TrackedAddressView>, block_hash: Seq<char>, block_time: i64, height: u32) -> Seq<UtxoPayloadView> {
    watched_outputs(tx.outputs@, watched).map_values(
        |p: (int, i32)| p2p_payload(tx, p.0, p.1, block_hash, block_time, height),
    )
}

/// The outputs of a run of transactions to save, in block order.
pub open spec fn p2p_payloads(txs: Seq<P2pTx>, watched: Seq<TrackedAddressView>, block_hash: Seq<char>, block_time: i64, height: u32) -> Seq<UtxoPayloadView>
    decreases txs.len(),
{
    if txs.len() == 0 {
        Seq::empty()
    } else {
        p2p_payloads(txs.drop_last(), watched, block_hash, block_time, height) + p2p_tx_payloads(
            txs.last(), watched, block_hash, block_time, height)
    }
}

/// Whether an input spends a real outpoint (it is not a coinbase input).
pub open spec fn spends_outpoint(i: P2pInput) -> bool {
    !(i.prev_txid@ == Seq::new(32, |k: int| 0u8) && i.prev_vout == u32::MAX)
}

/// The outpoints one transaction spends, in input order.
pub open spec fn p2p_tx_spent(inputs: Seq<P2pInput>) -> Seq<SpentOutpointView>
    decreases inputs.len(),
{
    if inputs.len() == 0 {
        Seq::empty()
    } else {
        let before = p2p_tx_spent(inputs.drop_last());
        let i = inputs.last();
        if spends_outpoint(i) {
            before.push(SpentOutpointView { txid: hash_display_text(i.prev_txid@), vout: i.prev_vout as i32 })
        } else {
            before
        }
    }
}

/// The outpoints a run of transactions spends, in block order.
pub open spec fn p2p_spent(txs: Seq<P2pTx>) -> Seq<SpentOutpointView>
    decreases txs.len(),
{
    if txs.len() == 0 {
        Seq::empty()
    } else {
        p2p_spent(txs.drop_last()) + p2p_tx_spent(txs.last().inputs@)
    }
}

/// The hash of a block's header, as displayed.
pub open spec fn block_hash_text(header: BlockHeader) -> Seq<char> {
    hash_display_text(sha256d_digest(header_bytes(header)))
}

/// The id under which `address` is watched, if it is.
fn lookup_watched(watched: &Vec<TrackedAddress>, address: &String) -> (r: Option<i32>)
    ensures
        r == watched_id(watched.deep_view(), address@),
{
    let ghost w = watched.deep_view();
    let mut i: usize = watched.len();
    assert(w.subrange(0, i as int) =~= w);
    while i > 0
        invariant
            i <= watched@.len(),
            w == watched.deep_view(),
            watched_id(w, address@) == watched_id(w.subrange(0, i as int), address@),
        decreases i,
    {
        let ghost pre = w.subrange(0, i as int);
        assert(pre.drop_last() =~= w.subrange(0, i - 1));
        assert(pre.last() == watched@[i - 1].deep_view());
        if watched[i - 1].address == *address {
            return Some(watched[i - 1].address_id);
        }
        i = i - 1;
    }
    assert(w.subrange(0, 0) =~= Seq::<TrackedAddressView>::empty());
    None
}

fn p2p_vins_json(inputs: &Vec<P2pInput>) -> (r: Vec<VinJson>)
    ensures
        r.deep_view() =~~= Seq::new(inputs@.len(), |n: int| p2p_vin_json(inputs@[n])),
{
    let mut r: Vec<VinJson> = Vec::new();
    let mut i: usize = 0;
    while i < inputs.len()
        invariant
            i <= inputs@.len(),
            r@.len() == i,
            forall|j: int| 0 <= j < i ==> (#[trigger] r@[j]).deep_view() == p2p_vin_json(inputs@[j]),
        decreases inputs@.len() - i,
    {
        let input = &inputs[i];
        r.push(VinJson {
            txid: txid_to_string(&input.prev_txid),
            vout: input.prev_vout,
            scriptsig: script_to_hex_string(input.script_sig.as_slice()),
            sequence: input.sequence as u64,
        });
        i = i + 1;
    }
    assert(r.deep_view() =~~= Seq::new(inputs@.len(), |n: int| p2p_vin_json(inputs@[n])));
    r
}

fn p2p_vouts_json(outputs: &Vec<P2pOutput>) -> (r: Vec<VoutJson>)
    ensures
        r.deep_view() =~~= Seq::new(outputs@.len(), |n: int| p2p_vout_json(outputs@[n], n)),
{
    let mut r: Vec<VoutJson> = Vec::new();
    let mut i: usize = 0;
    while i < outputs.len()
        invariant
            i <= outputs@.len(),
            r@.len() == i,
            forall|j: int| 0 <= j < i ==> (#[trigger] r@[j]).deep_view() == p2p_vout_json(outputs@[j], j),
        decreases outputs@.len() - i,
    {
        let out = &outputs[i];
        r.push(VoutJson {
            n: i,
            value: out.value,
            scriptpubkey: script_to_hex_string(out.script_pubkey.as_slice()),
            address: address_from_script(out.script_pubkey.as_slice()),
        });
        i = i + 1;
    }
    assert(r.deep_view() =~~= Seq::new(outputs@.len(), |n: int| p2p_vout_json(outputs@[n], n)));
    r
}

fn tx_payloads(
    tx: &P2pTx,
    watched: &Vec<TrackedAddress>,
    block_hash: &String,
    block_time: i64,
    height: u32,
) -> (r: Vec<UtxoPayload>)
    ensures
        r.deep_view() =~~= p2p_tx_payloads(*tx, watched.deep_view(), block_hash@, block_time, height),
{
    let ghost w = watched.deep_view();
    let txid = txid_to_string(&tx.txid);
    let mut r: Vec<UtxoPayload> = Vec::new();
    let mut i: usize = 0;
    while i < tx.outputs.len()
        invariant
            i <= tx.outputs@.len(),
            w == watched.deep_view(),
            txid@ == hash_display_text(tx.txid@),
            r@.len() == watched_outputs(tx.outputs@.subrange(0, i as int), w).len(),
            forall|j: int| 0 <= j < r@.len() ==> (#[trigger] r@[j]).deep_view() == ({
                let p = watched_outputs(tx.outputs@.subrange(0, i as int), w)[j];
                p2p_payload(*tx, p.0, p.1, block_hash@, block_time, height)
            }),
        decreases tx.outputs@.len() - i,
    {
        let ghost pre = tx.outputs@.subrange(0, i as int);
        let ghost found = watched_outputs(pre, w);
        assert(tx.outputs@.subrange(0, i + 1).drop_last() =~= pre);
        assert(tx.outputs@.subrange(0, i + 1).last() == tx.outputs@[i as int]);
        let out = &tx.outputs[i];
        match address_from_script(out.script_pubkey.as_slice()) {
            Some(a) => {
                match lookup_watched(watched, &a) {
                    Some(id) => {
                        let payload = UtxoPayload {
                            address_id: id,
                            txid: txid.clone(),
                            vout_idx: i as i32,
                            block_hash: block_hash.clone(),
                            block_time: block_time,
                            vouts: p2p_vouts_json(&tx.outputs),
                            vins: p2p_vins_json(&tx.inputs),
                            value: out.value as i64,
                            block_height: height as i32,
                            is_confirmed: true,
                        };
                        assert(payload.deep_view() =~~= p2p_payload(*tx, i as int, id, block_hash@, block_time, height));
                        r.push(payload);
                        assert(watched_outputs(tx.outputs@.subrange(0, i + 1), w) == found.push((i as int, id)));
                    },
                    None => {
                        assert(watched_outputs(tx.outputs@.subrange(0, i + 1), w) == found);
                    },
                }
            },
            None => {
                assert(watched_outputs(tx.outputs@.subrange(0, i + 1), w) == found);
            },
        }
        i = i + 1;
    }
    assert(tx.outputs@.subrange(0, i as int) =~= tx.outputs@);
    assert(r.deep_view() =~~= p2p_tx_payloads(*tx, w, block_hash@, block_time, height));
    r
}

fn tx_spent(inputs: &Vec<P2pInput>) -> (r: Vec<SpentOutpoint>)
    ensures
        r.deep_view() =~~= p2p_tx_spent(inputs@),
{
    let mut r: Vec<SpentOutpoint> = Vec::new();
    let mut i: usize = 0;
    while i < inputs.len()
        invariant
            i <= inputs@.len(),
            r.deep_view() =~~= p2p_tx_spent(inputs@.subrange(0, i as int)),
        decreases inputs@.len() - i,
    {
        let input = &inputs[i];
        assert(inputs@.subrange(0, i + 1).drop_last() =~= inputs@.subrange(0, i as int));
        assert(inputs@.subrange(0, i + 1).last() == inputs@[i as int]);
        if !outpoint_is_null(&input.prev_txid, input.prev_vout) {
            r.push(SpentOutpoint { txid: txid_to_string(&input.prev_txid), vout: input.prev_vout as i32 });
        }
        i = i + 1;
    }
    assert(inputs@.subrange(0, i as int) =~= inputs@);
    r
}

/// What a block received from a peer, to be recorded at `height`, asks of the
/// database for the watched addresses: every outpoint that its transactions
/// spend (whoever owned it), and every output that pays a watched address,
/// saved under the id of the last entry that watches it.
pub fn plan_p2p_block(block: &P2pBlock, height: u32, watched: &Vec<TrackedAddress>) -> (r: BlockPlan)
    ensures
        r.spent.deep_view() =~~= p2p_spent(block.txs@),
        r.utxos.deep_view() =~~= p2p_payloads(
            block.txs@,
            watched.deep_view(),
            block_hash_text(block.header),
            block.header.time as i64,
            height,
        ),
{
    let hash = header_block_hash(&block.header);
    let block_hash = block_hash_to_string(&hash);
    let block_time: i64 = match naive_timestamp(block.header.time as i64) {
        Some(t) => t,
        None => 0,
    };
    let mut spent: Vec<SpentOutpoint> = Vec::new();
    let mut utxos: Vec<UtxoPayload> = Vec::new();
    let mut t: usize = 0;
    while t < block.txs.len()
        invariant
            t <= block.txs@.len(),
            block_hash@ == block_hash_text(block.header),
            block_time == block.header.time as i64,
            spent.deep_view() =~~= p2p_spent(block.txs@.subrange(0, t as int)),
            utxos.deep_view() =~~= p2p_payloads(
                block.txs@.subrange(0, t as int),
                watched.deep_view(),
                block_hash@,
                block_time,
                height,
            ),
        decreases block.txs@.len() - t,
    {
        let tx = &block.txs[t];
        assert(block.txs@.subrange(0, t + 1).drop_last() =~= block.txs@.subrange(0, t as int));
        assert(block.txs@.subrange(0, t + 1).last() == block.txs@[t as int]);
        let mut s = tx_spent(&tx.inputs);
        let mut u = tx_payloads(tx, watched, &block_hash, block_time, height);
        spent.append(&mut s);
        utxos.append(&mut u);
        t = t + 1;
    }
    assert(block.txs@.subrange(0, t as int) =~= block.txs@);
    BlockPlan { spent, utxos }
}

/// The id under which the address an output pays is watched, if it is.
pub open spec fn output_watch_id(o: P2pOutput, watched: Seq<TrackedAddressView>) -> Option<i32> {
    match script_address(o.script_pubkey@) {
        Some(a) => watched_id(watched, a),
        None => None,
    }
}

/// The outputs of a transaction saved from a block are exactly those that
/// pay a watched address: each listed position holds such an output and
/// carries the id under which its address is watched, the positions rise
/// strictly (none is saved twice), and every such output is listed.
pub proof fn law_watched_outputs_exact(outputs: Seq<P2pOutput>, watched: Seq<TrackedAddressView>)
    ensures
        forall|j: int| 0 <= j < watched_outputs(outputs, watched).len() ==> {
            let e = #[trigger] watched_outputs(outputs, watched)[j];
            0 <= e.0 < outputs.len() && output_watch_id(outputs[e.0], watched) == Some(e.1)
        },
        forall|j1: int, j2: int| 0 <= j1 < j2 < watched_outputs(outputs, watched).len()
            ==> watched_outputs(outputs, watched)[j1].0 < watched_outputs(outputs, watched)[j2].0,
        forall|k: int| 0 <= k < outputs.len() && (#[trigger] output_watch_id(outputs[k], watched)) is Some
            ==> exists|j: int| 0 <= j < watched_outputs(outputs, watched).len()
                && (#[trigger] watched_outputs(outputs, watched)[j]).0 == k,
    decreases outputs.len(),
{
    if outputs.len() > 0 {
        let pre = outputs.drop_last();
        law_watched_outputs_exact(pre, watched);
        let before = watched_outputs(pre, watched);
        let all = watched_outputs(outputs, watched);
        let last = outputs.len() - 1;
        match output_watch_id(outputs.last(), watched) {
            Some(id) => {
                assert(all == before.push((last, id)));
            },
            None => {
                assert(all == before);
            },
        }
        assert forall|j: int| 0 <= j < all.len() implies {
            let e = #[trigger] all[j];
            0 <= e.0 < outputs.len() && output_watch_id(outputs[e.0], watched) == Some(e.1)
        } by {
            if j < before.len() {
                assert(all[j] == before[j]);
                assert(pre[before[j].0] == outputs[before[j].0]);
            }
        }
        assert forall|k: int| 0 <= k < outputs.len() && (#[trigger] output_watch_id(outputs[k], watched)) is Some
            implies exists|j: int| 0 <= j < all.len() && (#[trigger] all[j]).0 == k by {
            if k < last {
                assert(pre[k] == outputs[k]);
                assert(output_watch_id(pre[k], watched) is Some);
                let j = choose|j: int| 0 <= j < before.len() && (#[trigger] before[j]).0 == k;
                assert(all[j] == before[j]);
            } else {
                assert(all[before.len() as int].0 == k);
            }
        }
    }
}

/// Each output saved for a transaction carries the position, the value and
/// the watched id of an output of that transaction that pays a watched
/// address, and the transaction's id.
pub proof fn law_saved_outputs_carry_their_values(
    tx: P2pTx,
    watched: Seq<TrackedAddressView>,
    block_hash: Seq<char>,
    block_time: i64,
    height: u32,
)
    ensures
        forall|j: int| 0 <= j < p2p_tx_payloads(tx, watched, block_hash, block_time, height).len() ==> {
            let e = watched_outputs(tx.outputs@, watched)[j];
            let p = #[trigger] p2p_tx_payloads(tx, watched, block_hash, block_time, height)[j];
            &&& 0 <= e.0 < tx.outputs@.len()
            &&& output_watch_id(tx.outputs@[e.0], watched) == Some(p.address_id)
            &&& p.vout_idx == e.0 as i32
            &&& p.value == tx.outputs@[e.0].value as i64
            &&& p.txid == hash_display_text(tx.txid@)
            &&& p.block_height == height as i32
        },
{
    law_watched_outputs_exact(tx.outputs@, watched);
    let ws = watched_outputs(tx.outputs@, watched);
    let ps = p2p_tx_payloads(tx, watched, block_hash, block_time, height);
    assert forall|j: int| 0 <= j < ps.len() implies {
        let e = ws[j];
        let p = #[trigger] ps[j];
        &&& 0 <= e.0 < tx.outputs@.len()
        &&& output_watch_id(tx.outputs@[e.0], watched) == Some(p.address_id)
        &&& p.vout_idx == e.0 as i32
        &&& p.value == tx.outputs@[e.0].value as i64
        &&& p.txid == hash_display_text(tx.txid@)
        &&& p.block_height == height as i32
    } by {
        let e = ws[j];
        assert(0 <= e.0 < tx.outputs@.len());
    }
}

/// Whether a saved output is output `k` of transaction `i` of the block,
/// paying a watched address, with that output's value and the id under
/// which its address is watched.
pub open spec fn saved_from_block(txs: Seq<P2pTx>, watched: Seq<TrackedAddressView>, p: UtxoPayloadView) -> bool {
    exists|i: int, k: int|
        0 <= i < txs.len() && 0 <= k < txs[i].outputs@.len()
            && output_watch_id(txs[i].outputs@[k], watched) == Some(p.address_id)
            && p.txid == hash_display_text(txs[i].txid@) && p.vout_idx == k as i32
            && p.value == txs[i].outputs@[k].value as i64
}

/// Every output saved from a block is an output of one of its transactions
/// that pays a watched address, saved with its own position and value.
pub proof fn law_saved_block_outputs_pay_watched(
    txs: Seq<P2pTx>,
    watched: Seq<TrackedAddressView>,
    block_hash: Seq<char>,
    block_time: i64,
    height: u32,
)
    ensures
        forall|j: int| 0 <= j < p2p_payloads(txs, watched, block_hash, block_time, height).len()
            ==> saved_from_block(txs, watched, #[trigger] p2p_payloads(txs, watched, block_hash, block_time, height)[j]),
    decreases txs.len(),
{
    if txs.len() > 0 {
        let pre = txs.drop_last();
        law_saved_block_outputs_pay_watched(pre, watched, block_hash, block_time, height);
        let last = txs.last();
        law_saved_outputs_carry_their_values(last, watched, block_hash, block_time, height);
        let before = p2p_payloads(pre, watched, block_hash, block_time, height);
        let mine = p2p_tx_payloads(last, watched, block_hash, block_time, height);
        let all = p2p_payloads(txs, watched, block_hash, block_time, height);
        assert(all == before + mine);
        assert forall|j: int| 0 <= j < all.len() implies saved_from_block(txs, watched, #[trigger] all[j]) by {
            if j < before.len() {
                assert(all[j] == before[j]);
                assert(saved_from_block(pre, watched, before[j]));
                let (i, k) = choose|i: int, k: int|
                    0 <= i < pre.len() && 0 <= k < pre[i].outputs@.len()
                        && output_watch_id(pre[i].outputs@[k], watched) == Some(before[j].address_id)
                        && before[j].txid == hash_display_text(pre[i].txid@) && before[j].vout_idx == k as i32
                        && before[j].value == pre[i].outputs@[k].value as i64;
                assert(txs[i] == pre[i]);
            } else {
                let m = j - before.len();
                assert(all[j] == mine[m]);
                let p = mine[m];
                let e = watched_outputs(last.outputs@, watched)[m];
                let i = txs.len() - 1;
                assert(txs[i] == last);
                assert(0 <= e.0 < last.outputs@.len());
                assert(output_watch_id(txs[i].outputs@[e.0], watched) == Some(p.address_id));
            }
        }
    }
}

proof fn lemma_tx_spent_contains(inputs: Seq<P2pInput>, m: int)
    requires
        0 <= m < inputs.len(),
        spends_outpoint(inputs[m]),
    ensures
        p2p_tx_spent(inputs).contains(
            SpentOutpointView { txid: hash_display_text(inputs[m].prev_txid@), vout: inputs[m].prev_vout as i32 },
        ),
    decreases inputs.len(),
{
    let s = SpentOutpointView { txid: hash_display_text(inputs[m].prev_txid@), vout: inputs[m].prev_vout as i32 };
    let before = p2p_tx_spent(inputs.drop_last());
    if m == inputs.len() - 1 {
        assert(p2p_tx_spent(inputs) == before.push(s));
        assert(p2p_tx_spent(inputs)[before.len() as int] == s);
    } else {
        assert(inputs.drop_last()[m] == inputs[m]);
        lemma_tx_spent_contains(inputs.drop_last(), m);
        let k = choose|k: int| 0 <= k < before.len() && before[k] == s;
        assert(p2p_tx_spent(inputs)[k] == s);
    }
}

proof fn lemma_block_spent_contains(txs: Seq<P2pTx>, j: int, m: int)
    requires
        0 <= j < txs.len(),
        0 <= m < txs[j].inputs@.len(),
        spends_outpoint(txs[j].inputs@[m]),
    ensures
        p2p_spent(txs).contains(
            SpentOutpointView {
                txid: hash_display_text(txs[j].inputs@[m].prev_txid@),
                vout: txs[j].inputs@[m].prev_vout as i32,
            },
        ),
    decreases txs.len(),
{
    let s = SpentOutpointView {
        txid: hash_display_text(txs[j].inputs@[m].prev_txid@),
        vout: txs[j].inputs@[m].prev_vout as i32,
    };
    let before = p2p_spent(txs.drop_last());
    let last = p2p_tx_spent(txs.last().inputs@);
    assert(p2p_spent(txs) == before + last);
    if j == txs.len() - 1 {
        lemma_tx_spent_contains(txs.last().inputs@, m);
        let k = choose|k: int| 0 <= k < last.len() && last[k] == s;
        assert((before + last)[before.len() + k] == s);
    } else {
        assert(txs.drop_last()[j] == txs[j]);
        lemma_block_spent_contains(txs.drop_last(), j, m);
        let k = choose|k: int| 0 <= k < before.len() && before[k] == s;
        assert((before + last)[k] == s);
    }
}

/// An output of a block that a transaction of the same block spends is
/// among the outpoints the block marks spent, under the same transaction id
/// and index as the output saved for it; since the marking follows the
/// saving, such an output is not left unspent.
pub proof fn law_same_block_spend_marked(txs: Seq<P2pTx>, i: int, k: int, j: int, m: int)
    requires
        0 <= i < txs.len(),
        0 <= k < txs[i].outputs@.len(),
        k < u32::MAX,
        0 <= j < txs.len(),
        0 <= m < txs[j].inputs@.len(),
        txs[j].inputs@[m].prev_txid@ == txs[i].txid@,
        txs[j].inputs@[m].prev_vout == k,
    ensures
        p2p_spent(txs).contains(SpentOutpointView { txid: hash_display_text(txs[i].txid@), vout: k as i32 }),
        forall|id: i32, block_hash: Seq<char>, block_time: i64, height: u32|
            #![trigger p2p_payload(txs[i], k, id, block_hash, block_time, height)]
            p2p_payload(txs[i], k, id, block_hash, block_time, height).txid == hash_display_text(txs[i].txid@)
                && p2p_payload(txs[i], k, id, block_hash, block_time, height).vout_idx == k as i32,
{
    lemma_block_spent_contains(txs, j, m);
}

/// The largest message payload accepted from a peer: 8 MiB.
pub const MAX_MSG_SIZE: usize = 8388608;

/// The payload length that a 24-byte message header announces: the little
/// endian number in its bytes 16 to 19.
pub open spec fn announced_payload_len(header: Seq<u8>) -> int {
    header[16] + 256 * header[17] + 65536 * header[18] + 16777216 * header[19]
}

/// The payload length to read after a message header; `Err` with that length
/// when it is larger than `MAX_MSG_SIZE`.
pub fn message_payload_len(header: &[u8; 24]) -> (r: Result<usize, u32>)
    ensures
        announced_payload_len(header@) <= MAX_MSG_SIZE ==> r == Ok::<usize, u32>(
            announced_payload_len(header@) as usize,
        ),
        announced_payload_len(header@) > MAX_MSG_SIZE ==> r == Err::<usize, u32>(
            announced_payload_len(header@) as u32,
        ),
{
    let len: u32 = header[16] as u32 + 256 * (header[17] as u32) + 65536 * (header[18] as u32) + 16777216
        * (header[19] as u32);
    if len as usize > MAX_MSG_SIZE {
        Err(len)
    } else {
        Ok(len as usize)
    }
}

/// The discovered peers that are not already connected, each once, in the
/// order in which they were first discovered.
pub open spec fn unconnected(discovered: Seq<Seq<char>>, active: Seq<Seq<char>>) -> Seq<Seq<char>>
    decreases discovered.len(),
{
    if discovered.len() == 0 {
        Seq::empty()
    } else {
        let before = unconnected(discovered.drop_last(), active);
        if active.contains(discovered.last()) || before.contains(discovered.last()) {
            before
        } else {
            before.push(discovered.last())
        }
    }
}

/// How many new peers one round connects to.
pub const PEERS_PER_ROUND: usize = 4;

/// The first four of the unconnected peers (all of them, when fewer).
pub open spec fn selected_peers(discovered: Seq<Seq<char>>, active: Seq<Seq<char>>) -> Seq<Seq<char>> {
    let u = unconnected(discovered, active);
    if u.len() <= PEERS_PER_ROUND {
        u
    } else {
        u.take(PEERS_PER_ROUND as int)
    }
}

proof fn lemma_unconnected(discovered: Seq<Seq<char>>, active: Seq<Seq<char>>)
    ensures
        forall|i: int| 0 <= i < unconnected(discovered, active).len() ==> {
            let p = #[trigger] unconnected(discovered, active)[i];
            discovered.contains(p) && !active.contains(p)
        },
        unconnected(discovered, active).no_duplicates(),
    decreases discovered.len(),
{
    if discovered.len() > 0 {
        let pre = discovered.drop_last();
        lemma_unconnected(pre, active);
        let before = unconnected(pre, active);
        let u = unconnected(discovered, active);
        let last = discovered.last();
        assert forall|i: int| 0 <= i < u.len() implies {
            let p = #[trigger] u[i];
            discovered.contains(p) && !active.contains(p)
        } by {
            if i < before.len() {
                assert(u[i] == before[i]);
                let k = choose|k: int| 0 <= k < pre.len() && pre[k] == before[i];
                assert(discovered[k] == pre[k]);
            } else {
                assert(u[i] == last);
                assert(discovered[discovered.len() - 1] == last);
            }
        }
        if !(active.contains(last) || before.contains(last)) {
            assert forall|a: int, b: int| 0 <= a < u.len() && 0 <= b < u.len() && a != b
                implies u[a] != u[b] by {
                if a < before.len() && b < before.len() {
                    assert(u[a] == before[a] && u[b] == before[b]);
                } else if a < before.len() {
                    assert(u[a] == before[a]);
                    assert(u[b] == last);
                } else if b < before.len() {
                    assert(u[b] == before[b]);
                    assert(u[a] == last);
                }
            }
        }
    }
}

/// One round connects to at most four peers, each of them discovered, none
/// of them already connected, and no peer twice.
pub proof fn law_selected_peers(discovered: Seq<Seq<char>>, active: Seq<Seq<char>>)
    ensures
        selected_peers(discovered, active).len() <= PEERS_PER_ROUND,
        forall|i: int| 0 <= i < selected_peers(discovered, active).len() ==> {
            let p = #[trigger] selected_peers(discovered, active)[i];
            discovered.contains(p) && !active.contains(p)
        },
        selected_peers(discovered, active).no_duplicates(),
{
    lemma_unconnected(discovered, active);
    let u = unconnected(discovered, active);
    let sel = selected_peers(discovered, active);
    assert forall|i: int| 0 <= i < sel.len() implies sel[i] == u[i] by {}
}

/// The peers to connect to in one round: the first four discovered peers
/// that are not already connected, a peer discovered twice counted once.
pub fn select_new_peers(discovered: &Vec<String>, active: &Vec<String>) -> (r: Vec<String>)
    ensures
        r.deep_view() =~= selected_peers(discovered.deep_view(), active.deep_view()),
{
    let ghost d = discovered.deep_view();
    let ghost a = active.deep_view();
    let mut all: Vec<String> = Vec::new();
    let mut i: usize = 0;
    while i < discovered.len()
        invariant
            i <= discovered@.len(),
            d == discovered.deep_view(),
            a == active.deep_view(),
            all.deep_view() =~= unconnected(d.subrange(0, i as int), a),
        decreases discovered@.len() - i,
    {
        assert(d.subrange(0, i + 1).drop_last() =~= d.subrange(0, i as int));
        assert(d.subrange(0, i + 1).last() == d[i as int]);
        let mut connected = false;
        let mut j: usize = 0;
        while j < active.len()
            invariant
                j <= active@.len(),
                i < discovered@.len(),
                d == discovered.deep_view(),
                a == active.deep_view(),
                connected == (exists|k: int| 0 <= k < j && a[k] == d[i as int]),
            decreases active@.len() - j,
        {
            if active[j] == discovered[i] {
                connected = true;
                assert(a[j as int] == d[i as int]);
            }
            j = j + 1;
        }
        assert(connected == a.contains(d[i as int]));
        let ghost so_far = all.deep_view();
        let mut seen = false;
        let mut m: usize = 0;
        while m < all.len()
            invariant
                m <= all@.len(),
                i < discovered@.len(),
                d == discovered.deep_view(),
                so_far == all.deep_view(),
                seen == (exists|k: int| 0 <= k < m && so_far[k] == d[i as int]),
            decreases all@.len() - m,
        {
            if all[m] == discovered[i] {
                seen = true;
                assert(so_far[m as int] == d[i as int]);
            }
            m = m + 1;
        }
        assert(seen == so_far.contains(d[i as int]));
        if !connected && !seen {
            all.push(discovered[i].clone());
        }
        i = i + 1;
    }
    assert(d.subrange(0, i as int) =~= d);
    let mut r: Vec<String> = Vec::new();
    let mut k: usize = 0;
    while k < all.len() && k < PEERS_PER_ROUND
        invariant
            k <= all@.len(),
            k <= PEERS_PER_ROUND,
            r@.len() == k,
            forall|m: int| 0 <= m < k ==> (#[trigger] r@[m])@ == all@[m]@,
        decreases all@.len() - k,
    {
        r.push(all[k].clone());
        k = k + 1;
    }
    assert(r.deep_view() =~= all.deep_view().take(k as int));
    assert(all.deep_view() =~= unconnected(d, a));
    if all.len() <= PEERS_PER_ROUND {
        assert(k == all@.len());
        assert(all.deep_view().take(all@.len() as int) =~= all.deep_view());
    } else {
        assert(k == PEERS_PER_ROUND);
    }
    r
}

/// A connection with one peer: the last block indexed, and the watched
/// addresses as last read.
#[derive(Debug, Clone)]
pub struct PeerSession {
    pub current_hash: [u8; 32],
    pub current_height: u32,
    pub watched: Vec<TrackedAddress>,
}

/// A message from the peer, or the lack of one.
#[derive(Debug, Clone)]
pub enum PeerEvent {
    Version,
    Verack,
    /// A `headers` message, with its first header if it has any.
    Headers(Option<BlockHeader>),
    Block(P2pBlock),
    Ping(u64),
    /// An inventory announcement with this many items.
    Inv(usize),
    /// Any other message.
    Other,
}

/// What to do, in order, after a message.
#[derive(Debug, Clone)]
pub enum PeerAction {
    SendVerack,
    /// Ask for the headers that follow the block with this hash.
    RequestHeaders([u8; 32]),
    /// Ask for the full block with this hash.
    GetBlock([u8; 32]),
    /// Save these outputs, which pay watched addresses, as unspent.
    SaveOutputs(Vec<UtxoPayload>),
    /// Mark these outpoints spent. It follows the block's `SaveOutputs`, so
    /// an output that a later transaction of the same block spends is marked.
    MarkSpent(Vec<SpentOutpoint>),
    /// Record this height and hash as the last block indexed.
    SaveInfo { height: u32, hash: String },
    SendPong(u64),
    Sleep { millis: u64 },
    /// End the session without error.
    Close,
}

/// The state of a session: the last block indexed and the watched addresses.
pub struct PeerSessionView {
    pub current_hash: [u8; 32],
    pub current_height: u32,
    pub watched: Seq<TrackedAddressView>,
}

impl DeepView for PeerSession {
    type V = PeerSessionView;

    open spec fn deep_view(&self) -> PeerSessionView {
        PeerSessionView {
            current_hash: self.current_hash,
            current_height: self.current_height,
            watched: self.watched.deep_view(),
        }
    }
}

/// The answer `r` to a message `event`, taking the session from `pre` to
/// `post`.
pub open spec fn handle_answer(pre: PeerSessionView, event: PeerEvent, post: PeerSessionView, r: Seq<PeerAction>) -> bool {
    &&& post.watched == pre.watched
    &&& !(event is Block) ==> post.current_hash == pre.current_hash
        && post.current_height == pre.current_height
    &&& match event {
        PeerEvent::Version => r.len() == 1 && r[0] is SendVerack,
        PeerEvent::Verack => r.len() == 1 && r[0] == PeerAction::RequestHeaders(pre.current_hash),
        PeerEvent::Headers(None) => r.len() == 1 && r[0] == (PeerAction::Sleep { millis: 10_000 }),
        PeerEvent::Headers(Some(h)) => if proof_of_work_valid(header_bytes(h)) {
            r.len() == 1 && (r[0] matches PeerAction::GetBlock(hash)
                && hash@ == sha256d_digest(header_bytes(h)))
        } else {
            r.len() == 1 && r[0] is Close
        },
        PeerEvent::Block(b) => {
            &&& post.current_height == pre.current_height + 1
            &&& post.current_hash@ == sha256d_digest(header_bytes(b.header))
            &&& r.len() == 4
            &&& r[0] matches PeerAction::SaveOutputs(utxos) && utxos.deep_view() =~~= p2p_payloads(
                b.txs@,
                pre.watched,
                block_hash_text(b.header),
                b.header.time as i64,
                post.current_height,
            )
            &&& r[1] matches PeerAction::MarkSpent(spent) && spent.deep_view() =~~= p2p_spent(b.txs@)
            &&& r[2] matches PeerAction::SaveInfo { height, hash } && height == post.current_height
                && hash@ == block_hash_text(b.header)
            &&& r[3] == PeerAction::RequestHeaders(post.current_hash)
        },
        PeerEvent::Ping(n) => r.len() == 1 && r[0] == PeerAction::SendPong(n),
        PeerEvent::Inv(_) => r.len() == 0,
        PeerEvent::Other => r.len() == 0,
    }
}

impl PeerSession {
    /// A session that resumes after the block `current_hash` at `current_height`.
    pub fn new(current_hash: [u8; 32], current_height: u32, watched: Vec<TrackedAddress>) -> (r: PeerSession)
        ensures
            r.current_hash == current_hash,
            r.current_height == current_height,
            r.watched@ == watched@,
    {
        PeerSession { current_hash, current_height, watched }
    }

    /// Takes a fresh copy of the watched addresses, but only when their
    /// number changed; tells whether it did.
    pub fn refresh_watchlist(&mut self, new_list: Vec<TrackedAddress>) -> (r: bool)
        ensures
            r == (new_list@.len() != old(self).watched@.len()),
            r ==> final(self).watched@ == new_list@,
            !r ==> final(self).watched@ == old(self).watched@,
            final(self).current_hash == old(self).current_hash,
            final(self).current_height == old(self).current_height,
    {
        if new_list.len() != self.watched.len() {
            self.watched = new_list;
            true
        } else {
            false
        }
    }

    /// The actions that answer a message from the peer. A block is indexed
    /// at the height after the current one: its outputs that pay watched
    /// addresses are saved, then the outpoints it spends are marked spent,
    /// the block is recorded as the last one, and the headers after it are
    /// asked for.
    pub fn handle(&mut self, event: PeerEvent) -> (r: Vec<PeerAction>)
        requires
            event is Block ==> old(self).current_height < u32::MAX,
        ensures
            handle_answer(old(self).deep_view(), event, final(self).deep_view(), r@),
    {
        let mut r: Vec<PeerAction> = Vec::new();
        match event {
            PeerEvent::Version => {
                r.push(PeerAction::SendVerack);
            },
            PeerEvent::Verack => {
                r.push(PeerAction::RequestHeaders(self.current_hash));
            },
            PeerEvent::Headers(None) => {
                r.push(PeerAction::Sleep { millis: 10_000 });
            },
            PeerEvent::Headers(Some(h)) => {
                let hash = header_block_hash(&h);
                if header_pow_valid(&h) {
                    r.push(PeerAction::GetBlock(hash));
                } else {
                    r.push(PeerAction::Close);
                }
            },
            PeerEvent::Block(b) => {
                let hash = header_block_hash(&b.header);
                let height = self.current_height + 1;
                let plan = plan_p2p_block(&b, height, &self.watched);
                self.current_height = height;
                self.current_hash = hash;
                let shown = block_hash_to_string(&hash);
                let BlockPlan { spent, utxos } = plan;
                r.push(PeerAction::SaveOutputs(utxos));
                r.push(PeerAction::MarkSpent(spent));
                r.push(PeerAction::SaveInfo { height, hash: shown });
                r.push(PeerAction::RequestHeaders(hash));
            },
            PeerEvent::Ping(n) => {
                r.push(PeerAction::SendPong(n));
            },
            PeerEvent::Inv(_) => {},
            PeerEvent::Other => {},
        }
        r
    }
}

/// The heights reached over a run of blocks: each block moves the height up by one.
proof fn lemma_run_heights(pre: Seq<PeerSessionView>, post: Seq<PeerSessionView>, blocks: Seq<P2pBlock>, answers: Seq<Seq<PeerAction>>, j: int)
    requires
        pre.len() == blocks.len(),
        post.len() == blocks.len(),
        answers.len() == blocks.len(),
        forall|i: int| 0 <= i < blocks.len() ==> #[trigger] handle_answer(pre[i], PeerEvent::Block(blocks[i]), post[i], answers[i]),
        forall|i: int| 0 <= i < blocks.len() - 1 ==> (#[trigger] pre[i + 1]).current_height == post[i].current_height,
        0 <= j < blocks.len(),
    ensures
        post[j].current_height == pre[0].current_height + j + 1,
    decreases j,
{
    assert(handle_answer(pre[j], PeerEvent::Block(blocks[j]), post[j], answers[j]));
    if j > 0 {
        lemma_run_heights(pre, post, blocks, answers, j - 1);
        assert(pre[(j - 1) + 1].current_height == post[j - 1].current_height);
    }
}

/// Over a run of blocks received one after another (with, in between, only
/// messages that keep the height and hash, or a refresh of the watched
/// addresses), the j-th block is indexed at the height j + 1 above where the
/// run started: its outputs are saved and its spends marked, then that height
/// and the block's hash are recorded, then the headers after that very block
/// are asked for. Heights recorded rise by exactly one per block, and none
/// is recorded before its block is stored.
pub proof fn law_blocks_indexed_in_order(
    pre: Seq<PeerSessionView>,
    post: Seq<PeerSessionView>,
    blocks: Seq<P2pBlock>,
    answers: Seq<Seq<PeerAction>>,
)
    requires
        pre.len() == blocks.len(),
        post.len() == blocks.len(),
        answers.len() == blocks.len(),
        forall|i: int| 0 <= i < blocks.len() ==> #[trigger] handle_answer(pre[i], PeerEvent::Block(blocks[i]), post[i], answers[i]),
        forall|i: int| 0 <= i < blocks.len() - 1 ==> (#[trigger] pre[i + 1]).current_height == post[i].current_height
            && pre[i + 1].current_hash == post[i].current_hash,
    ensures
        forall|j: int| #![trigger answers[j]] 0 <= j < blocks.len() ==> {
            &&& post[j].current_height == pre[0].current_height + j + 1
            &&& post[j].current_hash@ == sha256d_digest(header_bytes(blocks[j].header))
            &&& answers[j].len() == 4
            &&& answers[j][0] is SaveOutputs
            &&& answers[j][1] is MarkSpent
            &&& answers[j][2] matches PeerAction::SaveInfo { height, hash }
                && height == pre[0].current_height + j + 1 && hash@ == block_hash_text(blocks[j].header)
            &&& answers[j][3] == PeerAction::RequestHeaders(post[j].current_hash)
        },
        forall|j: int| 0 < j < blocks.len() ==> (#[trigger] pre[j]).current_hash == post[j - 1].current_hash,
{
    assert forall|j: int| #![trigger answers[j]] 0 <= j < blocks.len() implies {
        &&& post[j].current_height == pre[0].current_height + j + 1
        &&& post[j].current_hash@ == sha256d_digest(header_bytes(blocks[j].header))
        &&& answers[j].len() == 4
        &&& answers[j][0] is SaveOutputs
        &&& answers[j][1] is MarkSpent
        &&& answers[j][2] matches PeerAction::SaveInfo { height, hash }
            && height == pre[0].current_height + j + 1 && hash@ == block_hash_text(blocks[j].header)
        &&& answers[j][3] == PeerAction::RequestHeaders(post[j].current_hash)
    } by {
        lemma_run_heights(pre, post, blocks, answers, j);
        assert(handle_answer(pre[j], PeerEvent::Block(blocks[j]), post[j], answers[j]));
    }
    assert forall|j: int| 0 < j < blocks.len() implies (#[trigger] pre[j]).current_hash == post[j - 1].current_hash by {
        assert(pre[(j - 1) + 1].current_hash == post[j - 1].current_hash);
    }
}

} // verus!
