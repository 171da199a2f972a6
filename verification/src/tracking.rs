//! What a block means for the watched addresses: which outputs pay them and
//! which earlier outputs its transactions spend.

use vstd::prelude::*;
use crate::db::models::{MerkleProof, TVin, TVinView, TVout, TVoutView, TX, TxView, UtxoPayload,
    UtxoPayloadView, VinJson, VinJsonView, VoutJson, VoutJsonView};
use crate::db::responses::{NewTransaction, NewTransactionView, TrackedAddress,
    TrackedAddressView, UtxoResponse, UtxoResponseView};
use crate::header::{hash_display_text, merkle_node_to_string, BlockHeader};
use crate::hexcodec::{hex_decode, is_hex_text};
use crate::merkle::{branch_is_hex, branch_text, merkle_root_text, verify_merkle_proof};

verus! {

/// An earlier output, named by its transaction and index, that a transaction spends.
#[derive(Debug, Clone)]
pub struct SpentOutpoint {
    pub txid: String,
    pub vout: i32,
}

/// The value of a spent outpoint.
pub struct SpentOutpointView {
    pub txid: Seq<char>,
    pub vout: i32,
}

impl DeepView for SpentOutpoint {
    type V = SpentOutpointView;

    open spec fn deep_view(&self) -> SpentOutpointView {
        SpentOutpointView { txid: self.txid@, vout: self.vout }
    }
}

/// What to record for one transaction of the block being indexed: the spent
/// outpoints to mark, and the outputs to save.
#[derive(Debug, Clone)]
pub struct TxPlan {
    pub utxos: Vec<UtxoPayload>,
    pub spent: Vec<SpentOutpoint>,
}

/// Whether the block explorer places the transaction in the block with this hash.
pub open spec fn in_block(tx: TxView, block_hash: Seq<char>) -> bool {
    tx.status.block_hash == Some(block_hash)
}

/// Whether an output pays the address.
pub open spec fn pays_to(out: TVoutView, address: Seq<char>) -> bool {
    out.scriptpubkey_address == Some(address)
}

/// The positions, in order, of the outputs that pay the address.
pub open spec fn paying_outputs(vout: Seq<TVoutView>, address: Seq<char>) -> Seq<int>
    decreases vout.len(),
{
    if vout.len() == 0 {
        Seq::empty()
    } else {
        let before = paying_outputs(vout.drop_last(), address);
        if pays_to(vout.last(), address) {
            before.push(vout.len() - 1)
        } else {
            before
        }
    }
}

/// Whether an input spends an output that the explorer shows paying the address.
pub open spec fn spends_from(input: TVinView, address: Seq<char>) -> bool {
    match input.prevout {
        Some(p) => pays_to(p, address),
        None => false,
    }
}

/// The outpoints, in input order, that a transaction spends from the address.
pub open spec fn spent_from(vin: Seq<TVinView>, address: Seq<char>) -> Seq<SpentOutpointView>
    decreases vin.len(),
{
    if vin.len() == 0 {
        Seq::empty()
    } else {
        let before = spent_from(vin.drop_last(), address);
        let input = vin.last();
        if spends_from(input, address) {
            before.push(SpentOutpointView { txid: input.txid, vout: input.vout as i32 })
        } else {
            before
        }
    }
}

/// An input, as stored.
pub open spec fn vin_json_of(v: TVinView) -> VinJsonView {
    VinJsonView { txid: v.txid, vout: v.vout, scriptsig: v.scriptsig, sequence: v.sequence }
}

/// The output at position `n`, as stored.
pub open spec fn vout_json_of(o: TVoutView, n: int) -> VoutJsonView {
    VoutJsonView {
        n: n as usize,
        value: o.value,
        scriptpubkey: o.scriptpubkey,
        address: o.scriptpubkey_address,
    }
}

/// All inputs of a transaction, as stored.
pub open spec fn vins_json(vin: Seq<TVinView>) -> Seq<VinJsonView> {
    Seq::new(vin.len(), |i: int| vin_json_of(vin[i]))
}

/// All outputs of a transaction, as stored.
pub open spec fn vouts_json(vout: Seq<TVoutView>) -> Seq<VoutJsonView> {
    Seq::new(vout.len(), |i: int| vout_json_of(vout[i], i))
}

/// Whether `chrono` can represent the time `t` seconds after the epoch
/// (what `NaiveDateTime::from_timestamp_opt(t, 0)` decides): from the first
/// second of the year -262143 to the last second of the year 262142.
pub open spec fn timestamp_representable(t: i64) -> bool {
    -8_334_601_228_800 <= t <= 8_210_266_876_799
}

/// `chrono::NaiveDateTime::from_timestamp_opt(t, 0)`, read back as seconds:
/// `Some(t)` when chrono can represent that moment, `None` when it is out of
/// range.
#[verifier::external_body]
pub(crate) fn naive_timestamp(t: i64) -> (r: Option<i64>)
    ensures
        r is Some <==> timestamp_representable(t),
        r matches Some(x) ==> x == t,
{
    #[allow(deprecated)]
    let d = chrono::NaiveDateTime::from_timestamp_opt(t, 0);
    match d {
        Some(d) => Some(d.and_utc().timestamp()),
        None => None,
    }
}

/// The block time saved with an output: the explorer's time when chrono can
/// represent it, otherwise (and when there is none) the epoch.
pub open spec fn saved_block_time(t: Option<i64>) -> i64 {
    match t {
        Some(t) => if timestamp_representable(t) {
            t
        } else {
            0
        },
        None => 0,
    }
}

/// The output at position `idx` of a transaction, saved for a watched address.
pub open spec fn rpc_payload(tx: TxView, watch: TrackedAddressView, block_hash: Seq<char>, idx: int) -> UtxoPayloadView {
    UtxoPayloadView {
        address_id: watch.address_id,
        txid: tx.txid,
        vout_idx: idx as i32,
        block_hash: block_hash,
        block_time: saved_block_time(tx.status.block_time),
        vouts: vouts_json(tx.vout),
        vins: vins_json(tx.vin),
        value: tx.vout[idx].value as i64,
        block_height: match tx.status.block_height {
            Some(h) => h,
            None => 0,
        },
        is_confirmed: true,
    }
}

/// Every output of a transaction that pays the watched address, saved as found in the block.
pub open spec fn rpc_payloads(tx: TxView, watch: TrackedAddressView, block_hash: Seq<char>) -> Seq<UtxoPayloadView> {
    paying_outputs(tx.vout, watch.address).map_values(|i: int| rpc_payload(tx, watch, block_hash, i))
}

fn same_text(a: &String, b: &String) -> (r: bool)
    ensures
        r == (a@ == b@),
{
    *a == *b
}

fn copy_opt_text(o: &Option<String>) -> (r: Option<String>)
    ensures
        r.deep_view() == o.deep_view(),
{
    match o {
        Some(s) => Some(s.clone()),
        None => None,
    }
}

/// Whether the explorer places the transaction in the block with hash `target_block_hash`.
pub fn tx_in_block(tx: &TX, target_block_hash: &String) -> (r: bool)
    ensures
        r == in_block(tx.deep_view(), target_block_hash@),
{
    match &tx.status.block_hash {
        Some(h) => same_text(h, target_block_hash),
        None => false,
    }
}

fn output_pays(out: &TVout, address: &String) -> (r: bool)
    ensures
        r == pays_to(out.deep_view(), address@),
{
    match &out.scriptpubkey_address {
        Some(a) => same_text(a, address),
        None => false,
    }
}

/// The outpoints, in input order, that the transaction spends from `address`.
pub fn spent_outpoints(tx: &TX, address: &String) -> (r: Vec<SpentOutpoint>)
    ensures
        r.deep_view() =~~= spent_from(tx.deep_view().vin, address@),
{
    let mut r: Vec<SpentOutpoint> = Vec::new();
    let mut i: usize = 0;
    while i < tx.vin.len()
        invariant
            i <= tx.vin@.len(),
            r.deep_view() =~~= spent_from(tx.vin.deep_view().subrange(0, i as int), address@),
        decreases tx.vin@.len() - i,
    {
        let input = &tx.vin[i];
        let ghost pre = tx.vin.deep_view().subrange(0, i as int);
        assert(tx.vin.deep_view().subrange(0, i + 1).drop_last() =~= pre);
        let spends = match &input.prevout {
            Some(p) => output_pays(p, address),
            None => false,
        };
        if spends {
            r.push(SpentOutpoint { txid: input.txid.clone(), vout: input.vout as i32 });
        }
        i = i + 1;
    }
    assert(tx.vin.deep_view().subrange(0, i as int) =~= tx.vin.deep_view());
    r
}

fn vin_to_json(v: &TVin) -> (r: VinJson)
    ensures
        r.deep_view() == vin_json_of(v.deep_view()),
{
    VinJson { txid: v.txid.clone(), vout: v.vout, scriptsig: v.scriptsig.clone(), sequence: v.sequence }
}

fn vins_to_json(vin: &Vec<TVin>) -> (r: Vec<VinJson>)
    ensures
        r.deep_view() =~~= vins_json(vin.deep_view()),
{
    let mut r: Vec<VinJson> = Vec::new();
    let mut i: usize = 0;
    while i < vin.len()
        invariant
            i <= vin@.len(),
            r@.len() == i,
            forall|j: int| 0 <= j < i ==> (#[trigger] r@[j]).deep_view() == vin_json_of(vin@[j].deep_view()),
        decreases vin@.len() - i,
    {
        r.push(vin_to_json(&vin[i]));
        i = i + 1;
    }
    assert(r.deep_view() =~~= vins_json(vin.deep_view()));
    r
}

fn vouts_to_json(vout: &Vec<TVout>) -> (r: Vec<VoutJson>)
    ensures
        r.deep_view() =~~= vouts_json(vout.deep_view()),
{
    let mut r: Vec<VoutJson> = Vec::new();
    let mut i: usize = 0;
    while i < vout.len()
        invariant
            i <= vout@.len(),
            r@.len() == i,
            forall|j: int| 0 <= j < i ==> (#[trigger] r@[j]).deep_view() == vout_json_of(vout@[j].deep_view(), j),
        decreases vout@.len() - i,
    {
        let o = &vout[i];
        r.push(VoutJson {
            n: i,
            value: o.value,
            scriptpubkey: o.scriptpubkey.clone(),
            address: copy_opt_text(&o.scriptpubkey_address),
        });
        i = i + 1;
    }
    assert(r.deep_view() =~~= vouts_json(vout.deep_view()));
    r
}

/// The block time to save for the explorer's time `t`.
fn block_time_to_save(t: Option<i64>) -> (r: i64)
    ensures
        r == saved_block_time(t),
{
    match t {
        Some(t) => match naive_timestamp(t) {
            Some(x) => x,
            None => 0,
        },
        None => 0,
    }
}

/// Every output of the transaction that pays the watched address, as it is
/// saved for the block with hash `target_block_hash`.
pub fn rpc_utxo_payloads(tx: &TX, watch: &TrackedAddress, target_block_hash: &String) -> (r: Vec<UtxoPayload>)
    ensures
        r.deep_view() =~~= rpc_payloads(tx.deep_view(), watch.deep_view(), target_block_hash@),
{
    let ghost txv = tx.deep_view();
    let ghost tv = watch.deep_view();
    let block_time = block_time_to_save(tx.status.block_time);
    let block_height = match tx.status.block_height {
        Some(h) => h,
        None => 0,
    };
    let mut r: Vec<UtxoPayload> = Vec::new();
    let mut i: usize = 0;
    while i < tx.vout.len()
        invariant
            i <= tx.vout@.len(),
            txv == tx.deep_view(),
            tv == watch.deep_view(),
            block_time == saved_block_time(txv.status.block_time),
            block_height == (match txv.status.block_height {
                Some(h) => h,
                None => 0,
            }),
            r@.len() == paying_outputs(txv.vout.subrange(0, i as int), tv.address).len(),
            forall|j: int| 0 <= j < r@.len() ==> (#[trigger] r@[j]).deep_view() == rpc_payload(
                txv, tv, target_block_hash@,
                paying_outputs(txv.vout.subrange(0, i as int), tv.address)[j]),
        decreases tx.vout@.len() - i,
    {
        let ghost pre = txv.vout.subrange(0, i as int);
        let ghost idxs = paying_outputs(pre, tv.address);
        assert(txv.vout.subrange(0, i + 1).drop_last() =~= pre);
        assert(txv.vout.subrange(0, i + 1).last() == txv.vout[i as int]);
        assert(tx.vout@[i as int].deep_view() == txv.vout[i as int]);
        if output_pays(&tx.vout[i], &watch.address) {
            let payload = UtxoPayload {
                address_id: watch.address_id,
                txid: tx.txid.clone(),
                vout_idx: i as i32,
                block_hash: target_block_hash.clone(),
                block_time: block_time,
                vouts: vouts_to_json(&tx.vout),
                vins: vins_to_json(&tx.vin),
                value: tx.vout[i].value as i64,
                block_height: block_height,
                is_confirmed: true,
            };
            assert(payload.deep_view() =~~= rpc_payload(txv, tv, target_block_hash@, i as int));
            r.push(payload);
            assert(paying_outputs(txv.vout.subrange(0, i + 1), tv.address) == idxs.push(i as int));
        } else {
            assert(paying_outputs(txv.vout.subrange(0, i + 1), tv.address) == idxs);
        }
        i = i + 1;
    }
    assert(txv.vout.subrange(0, i as int) =~= txv.vout);
    assert(r.deep_view() =~~= rpc_payloads(txv, tv, target_block_hash@));
    r
}

/// Every output of a transaction that pays the watched address, as the
/// first indexer saved it: still unspent, at the explorer's height.
pub open spec fn legacy_utxos_spec(tx: TxView, watch: TrackedAddressView) -> Seq<UtxoResponseView> {
    paying_outputs(tx.vout, watch.address).map_values(|i: int| legacy_utxo_view(tx, watch, i))
}

/// The output at position `i`, as the first indexer saved it.
pub open spec fn legacy_utxo_view(tx: TxView, watch: TrackedAddressView, i: int) -> UtxoResponseView {
    UtxoResponseView {
        address_id: watch.address_id,
        txid: tx.txid,
        vout_idx: i as i32,
        value: tx.vout[i].value as i64,
        block_height: tx.status.block_height,
        is_spent: false,
    }
}

/// A transaction as the first indexer saved it: the positions of its outputs
/// and the output positions that its inputs spend.
pub open spec fn legacy_transaction_spec(tx: TxView) -> NewTransactionView {
    NewTransactionView {
        txid: tx.txid,
        block_height: tx.status.block_height,
        block_hash: tx.status.block_hash,
        block_time: tx.status.block_time,
        vouts: Some(Seq::new(tx.vout.len(), |i: int| i as i32)),
        vins: Some(Seq::new(tx.vin.len(), |i: int| tx.vin[i].vout as i32)),
    }
}

/// The transaction record that the first indexer saved.
pub fn legacy_new_transaction(tx: &TX) -> (r: NewTransaction)
    ensures
        r.deep_view() =~~= legacy_transaction_spec(tx.deep_view()),
{
    let mut vouts: Vec<i32> = Vec::new();
    let mut i: usize = 0;
    while i < tx.vout.len()
        invariant
            i <= tx.vout@.len(),
            vouts@ =~= Seq::new(i as nat, |k: int| k as i32),
        decreases tx.vout@.len() - i,
    {
        vouts.push(i as i32);
        i = i + 1;
    }
    let mut vins: Vec<i32> = Vec::new();
    let mut j: usize = 0;
    while j < tx.vin.len()
        invariant
            j <= tx.vin@.len(),
            vins@ =~= Seq::new(j as nat, |k: int| tx.vin@[k].vout as i32),
        decreases tx.vin@.len() - j,
    {
        vins.push(tx.vin[j].vout as i32);
        j = j + 1;
    }
    let r = NewTransaction {
        txid: tx.txid.clone(),
        block_height: tx.status.block_height,
        block_hash: copy_opt_text(&tx.status.block_hash),
        block_time: tx.status.block_time,
        vouts: Some(vouts),
        vins: Some(vins),
    };
    let ghost txv = tx.deep_view();
    assert(vins@ =~= Seq::new(txv.vin.len(), |k: int| txv.vin[k].vout as i32));
    assert(vouts@ =~= Seq::new(txv.vout.len(), |k: int| k as i32));
    r
}

/// Every output of the transaction that pays the watched address, as the
/// first indexer saved it.
pub fn legacy_utxos(tx: &TX, watch: &TrackedAddress) -> (r: Vec<UtxoResponse>)
    ensures
        r.deep_view() =~~= legacy_utxos_spec(tx.deep_view(), watch.deep_view()),
{
    let ghost txv = tx.deep_view();
    let ghost tv = watch.deep_view();
    let mut r: Vec<UtxoResponse> = Vec::new();
    let mut i: usize = 0;
    while i < tx.vout.len()
        invariant
            i <= tx.vout@.len(),
            txv == tx.deep_view(),
            tv == watch.deep_view(),
            r@.len() == paying_outputs(txv.vout.subrange(0, i as int), tv.address).len(),
            forall|j: int| 0 <= j < r@.len() ==> (#[trigger] r@[j]).deep_view() == legacy_utxo_view(
                txv, tv, paying_outputs(txv.vout.subrange(0, i as int), tv.address)[j]),
        decreases tx.vout@.len() - i,
    {
        let ghost pre = txv.vout.subrange(0, i as int);
        let ghost idxs = paying_outputs(pre, tv.address);
        assert(txv.vout.subrange(0, i + 1).drop_last() =~= pre);
        assert(txv.vout.subrange(0, i + 1).last() == txv.vout[i as int]);
        assert(tx.vout@[i as int].deep_view() == txv.vout[i as int]);
        if output_pays(&tx.vout[i], &watch.address) {
            let u = UtxoResponse {
                address_id: watch.address_id,
                txid: tx.txid.clone(),
                vout_idx: i as i32,
                value: tx.vout[i].value as i64,
                block_height: tx.status.block_height,
                is_spent: false,
            };
            assert(u.deep_view() =~~= legacy_utxo_view(txv, tv, i as int));
            r.push(u);
            assert(paying_outputs(txv.vout.subrange(0, i + 1), tv.address) == idxs.push(i as int));
        } else {
            assert(paying_outputs(txv.vout.subrange(0, i + 1), tv.address) == idxs);
        }
        i = i + 1;
    }
    assert(txv.vout.subrange(0, i as int) =~= txv.vout);
    assert(r.deep_view() =~~= legacy_utxos_spec(txv, tv));
    r
}

/// Whether a transaction id and a proof's branch are hexadecimal text, as
/// checking the proof needs.
pub fn proof_inputs_are_hex(txid_hex: &str, proof: &MerkleProof) -> (r: bool)
    ensures
        r == (is_hex_text(txid_hex@) && branch_is_hex(branch_text(proof.merkle@))),
{
    if hex_decode(txid_hex).is_err() {
        return false;
    }
    let mut i: usize = 0;
    while i < proof.merkle.len()
        invariant
            i <= proof.merkle@.len(),
            forall|k: int| 0 <= k < i ==> is_hex_text(#[trigger] branch_text(proof.merkle@)[k]),
        decreases proof.merkle@.len() - i,
    {
        if hex_decode(proof.merkle[i].as_str()).is_err() {
            assert(!is_hex_text(branch_text(proof.merkle@)[i as int]));
            return false;
        }
        i = i + 1;
    }
    true
}

/// Whether the proof ties the transaction to the header's merkle root.
pub open spec fn proof_holds(tx: TxView, header: BlockHeader, proof_branch: Seq<Seq<char>>, pos: nat) -> bool {
    merkle_root_text(tx.txid, proof_branch, pos) == hash_display_text(header.merkle_root@)
}

/// What the indexer records for a transaction of the block (the block with
/// hash `target_block_hash` and header `header`) that touches the watched
/// address: when the proof ties it to the header's merkle root, the outputs
/// that pay the address and the outpoints it spends from the address;
/// otherwise nothing.
pub fn plan_rpc_tx(
    tx: &TX,
    watch: &TrackedAddress,
    target_block_hash: &String,
    header: &BlockHeader,
    proof: &MerkleProof,
) -> (r: TxPlan)
    requires
        is_hex_text(tx.txid@),
        branch_is_hex(branch_text(proof.merkle@)),
    ensures
        proof_holds(tx.deep_view(), *header, branch_text(proof.merkle@), proof.pos as nat) ==> {
            &&& r.utxos.deep_view() =~~= rpc_payloads(tx.deep_view(), watch.deep_view(), target_block_hash@)
            &&& r.spent.deep_view() =~~= spent_from(tx.deep_view().vin, watch.address@)
        },
        !proof_holds(tx.deep_view(), *header, branch_text(proof.merkle@), proof.pos as nat) ==> {
            &&& r.utxos@.len() == 0
            &&& r.spent@.len() == 0
        },
{
    let expected_root = merkle_node_to_string(&header.merkle_root);
    if verify_merkle_proof(tx.txid.as_str(), proof, expected_root.as_str()) {
        TxPlan {
            utxos: rpc_utxo_payloads(tx, watch, target_block_hash),
            spent: spent_outpoints(tx, &watch.address),
        }
    } else {
        TxPlan { utxos: Vec::new(), spent: Vec::new() }
    }
}

/// What the first indexer recorded for a transaction of the block that
/// touches the watched address, when the proof ties it to the header's merkle
/// root: the transaction, the outputs that pay the address, and the
/// outpoints it spends from the address.
pub struct LegacyTxPlan {
    pub transaction: NewTransaction,
    pub utxos: Vec<UtxoResponse>,
    pub spent: Vec<SpentOutpoint>,
}

/// The first indexer's record of a transaction; `None` when the proof does not hold.
pub fn plan_legacy_tx(tx: &TX, watch: &TrackedAddress, header: &BlockHeader, proof: &MerkleProof) -> (r: Option<LegacyTxPlan>)
    requires
        is_hex_text(tx.txid@),
        branch_is_hex(branch_text(proof.merkle@)),
    ensures
        r is Some <==> proof_holds(tx.deep_view(), *header, branch_text(proof.merkle@), proof.pos as nat),
        r matches Some(p) ==> {
            &&& p.transaction.deep_view() =~~= legacy_transaction_spec(tx.deep_view())
            &&& p.utxos.deep_view() =~~= legacy_utxos_spec(tx.deep_view(), watch.deep_view())
            &&& p.spent.deep_view() =~~= spent_from(tx.deep_view().vin, watch.address@)
        },
{
    let expected_root = merkle_node_to_string(&header.merkle_root);
    if verify_merkle_proof(tx.txid.as_str(), proof, expected_root.as_str()) {
        Some(LegacyTxPlan {
            transaction: legacy_new_transaction(tx),
            utxos: legacy_utxos(tx, watch),
            spent: spent_outpoints(tx, &watch.address),
        })
    } else {
        None
    }
}

/// The outputs saved for an address are exactly those that pay it: every
/// listed position holds an output paying the address, the positions rise
/// strictly (so none is listed twice), and every paying output is listed.
pub proof fn law_paying_outputs_exact(vout: Seq<TVoutView>, address: Seq<char>)
    ensures
        forall|j: int| 0 <= j < paying_outputs(vout, address).len() ==> {
            let k = #[trigger] paying_outputs(vout, address)[j];
            0 <= k < vout.len() && pays_to(vout[k], address)
        },
        forall|j1: int, j2: int| 0 <= j1 < j2 < paying_outputs(vout, address).len()
            ==> paying_outputs(vout, address)[j1] < paying_outputs(vout, address)[j2],
        forall|k: int| 0 <= k < vout.len() && pays_to(vout[k], address)
            ==> paying_outputs(vout, address).contains(k),
    decreases vout.len(),
{
    if vout.len() > 0 {
        let pre = vout.drop_last();
        law_paying_outputs_exact(pre, address);
        let before = paying_outputs(pre, address);
        if pays_to(vout.last(), address) {
            assert(paying_outputs(vout, address) == before.push(vout.len() - 1));
        } else {
            assert(paying_outputs(vout, address) == before);
        }
        assert forall|k: int| 0 <= k < vout.len() && pays_to(vout[k], address)
            implies paying_outputs(vout, address).contains(k) by {
            if k < vout.len() - 1 {
                assert(pre[k] == vout[k]);
                assert(pays_to(pre[k], address));
                assert(before.contains(k));
                let j = choose|j: int| 0 <= j < before.len() && before[j] == k;
                assert(paying_outputs(vout, address)[j] == k);
            } else {
                assert(paying_outputs(vout, address) == before.push(k));
                assert(paying_outputs(vout, address)[before.len() as int] == k);
            }
        }
        assert forall|j: int| 0 <= j < paying_outputs(vout, address).len() implies {
            let k = #[trigger] paying_outputs(vout, address)[j];
            0 <= k < vout.len() && pays_to(vout[k], address)
        } by {
            if j < before.len() {
                assert(pre[before[j]] == vout[before[j]]);
            }
        }
    }
}

/// Each output saved for the block carries the position of an output that
/// pays the watched address, and that output's value.
pub proof fn law_saved_payloads_pay_the_address(tx: TxView, watch: TrackedAddressView, block_hash: Seq<char>)
    ensures
        forall|j: int| 0 <= j < rpc_payloads(tx, watch, block_hash).len() ==> {
            let k = paying_outputs(tx.vout, watch.address)[j];
            let p = #[trigger] rpc_payloads(tx, watch, block_hash)[j];
            &&& 0 <= k < tx.vout.len()
            &&& pays_to(tx.vout[k], watch.address)
            &&& p.vout_idx == k as i32
            &&& p.value == tx.vout[k].value as i64
            &&& p.address_id == watch.address_id
            &&& p.txid == tx.txid
        },
{
    law_paying_outputs_exact(tx.vout, watch.address);
    assert forall|j: int| 0 <= j < rpc_payloads(tx, watch, block_hash).len() implies {
        let k = paying_outputs(tx.vout, watch.address)[j];
        let p = #[trigger] rpc_payloads(tx, watch, block_hash)[j];
        &&& 0 <= k < tx.vout.len()
        &&& pays_to(tx.vout[k], watch.address)
        &&& p.vout_idx == k as i32
        &&& p.value == tx.vout[k].value as i64
        &&& p.address_id == watch.address_id
        &&& p.txid == tx.txid
    } by {
        let k = paying_outputs(tx.vout, watch.address)[j];
        assert(0 <= k < tx.vout.len());
    }
}

/// Whether an entry is the outpoint of an input that spends a coin of the address.
pub open spec fn spent_by_an_input(vin: Seq<TVinView>, address: Seq<char>, e: SpentOutpointView) -> bool {
    exists|k: int| 0 <= k < vin.len() && spends_from(vin[k], address) && e == spent_entry(vin[k])
}

/// The outpoint an input spends, as it is marked spent.
pub open spec fn spent_entry(input: TVinView) -> SpentOutpointView {
    SpentOutpointView { txid: input.txid, vout: input.vout as i32 }
}

proof fn lemma_spent_source(vin: Seq<TVinView>, address: Seq<char>, j: int)
    requires
        0 <= j < spent_from(vin, address).len(),
    ensures
        spent_by_an_input(vin, address, spent_from(vin, address)[j]),
    decreases vin.len(),
{
    let pre = vin.drop_last();
    let before = spent_from(pre, address);
    let last = vin.last();
    if j < before.len() {
        assert(spent_from(vin, address)[j] == before[j]);
        lemma_spent_source(pre, address, j);
        let k = choose|k: int| 0 <= k < pre.len() && spends_from(pre[k], address) && before[j] == spent_entry(pre[k]);
        assert(vin[k] == pre[k]);
    } else {
        let k = vin.len() - 1;
        assert(vin[k] == last);
        assert(spends_from(last, address));
        assert(spent_from(vin, address)[j] == spent_entry(vin[k]));
    }
}

proof fn lemma_spent_sound(vin: Seq<TVinView>, address: Seq<char>)
    ensures
        forall|j: int| 0 <= j < spent_from(vin, address).len() ==> spent_by_an_input(vin, address, #[trigger] spent_from(vin, address)[j]),
{
    assert forall|j: int| 0 <= j < spent_from(vin, address).len() implies spent_by_an_input(vin, address, #[trigger] spent_from(vin, address)[j]) by {
        lemma_spent_source(vin, address, j);
    }
}

/// The outpoints marked spent for an address are exactly those of the
/// inputs that spend its coins: every such input's outpoint is listed, every
/// listed outpoint is that of such an input, and there are as many as there
/// are such inputs.
pub proof fn law_spent_outpoints_exact(vin: Seq<TVinView>, address: Seq<char>)
    ensures
        forall|k: int| 0 <= k < vin.len() && #[trigger] spends_from(vin[k], address) ==> spent_from(vin, address).contains(
            SpentOutpointView { txid: vin[k].txid, vout: vin[k].vout as i32 },
        ),
        forall|j: int| 0 <= j < spent_from(vin, address).len() ==> spent_by_an_input(vin, address, #[trigger] spent_from(vin, address)[j]),
        spent_from(vin, address).len() == vin.filter(|i: TVinView| spends_from(i, address)).len(),
    decreases vin.len(),
{
    lemma_spent_sound(vin, address);
    if vin.len() == 0 {
        reveal(Seq::filter);
    }
    if vin.len() > 0 {
        let pre = vin.drop_last();
        law_spent_outpoints_exact(pre, address);
        let before = spent_from(pre, address);
        let all = spent_from(vin, address);
        let last = vin.last();
        let pred = |i: TVinView| spends_from(i, address);
        assert(vin =~= pre.push(last));
        pre.lemma_filter_push(last, pred);
        let entry = SpentOutpointView { txid: last.txid, vout: last.vout as i32 };
        if spends_from(last, address) {
            assert(all == before.push(entry));
        } else {
            assert(all == before);
        }
        assert forall|k: int| 0 <= k < vin.len() && #[trigger] spends_from(vin[k], address) implies all.contains(
            SpentOutpointView { txid: vin[k].txid, vout: vin[k].vout as i32 },
        ) by {
            if k < pre.len() {
                assert(pre[k] == vin[k]);
                assert(spends_from(pre[k], address));
                let e = SpentOutpointView { txid: vin[k].txid, vout: vin[k].vout as i32 };
                assert(before.contains(e));
                let j = choose|j: int| 0 <= j < before.len() && before[j] == e;
                assert(all[j] == e);
            } else {
                assert(all[before.len() as int] == entry);
            }
        }
    }
}

/// Each output the first indexer records for an address carries the
/// position and the value of an output that pays the address, the
/// address's id and the transaction's id, unspent; and every paying output
/// is recorded.
pub proof fn law_legacy_records_pay_the_address(tx: TxView, watch: TrackedAddressView)
    ensures
        forall|j: int| 0 <= j < legacy_utxos_spec(tx, watch).len() ==> {
            let k = paying_outputs(tx.vout, watch.address)[j];
            let u = #[trigger] legacy_utxos_spec(tx, watch)[j];
            &&& 0 <= k < tx.vout.len()
            &&& pays_to(tx.vout[k], watch.address)
            &&& u.vout_idx == k as i32
            &&& u.value == tx.vout[k].value as i64
            &&& u.address_id == watch.address_id
            &&& u.txid == tx.txid
            &&& !u.is_spent
        },
        forall|k: int| 0 <= k < tx.vout.len() && #[trigger] pays_to(tx.vout[k], watch.address) ==> exists|j: int|
            0 <= j < legacy_utxos_spec(tx, watch).len() && (#[trigger] legacy_utxos_spec(tx, watch)[j]).vout_idx == k as i32
                && legacy_utxos_spec(tx, watch)[j].value == tx.vout[k].value as i64,
{
    law_paying_outputs_exact(tx.vout, watch.address);
    let ps = paying_outputs(tx.vout, watch.address);
    let us = legacy_utxos_spec(tx, watch);
    assert forall|j: int| 0 <= j < us.len() implies {
        let k = ps[j];
        let u = #[trigger] us[j];
        &&& 0 <= k < tx.vout.len()
        &&& pays_to(tx.vout[k], watch.address)
        &&& u.vout_idx == k as i32
        &&& u.value == tx.vout[k].value as i64
        &&& u.address_id == watch.address_id
        &&& u.txid == tx.txid
        &&& !u.is_spent
    } by {
        let k = ps[j];
        assert(0 <= k < tx.vout.len());
    }
    assert forall|k: int| 0 <= k < tx.vout.len() && #[trigger] pays_to(tx.vout[k], watch.address) implies exists|j: int|
        0 <= j < us.len() && (#[trigger] us[j]).vout_idx == k as i32 && us[j].value == tx.vout[k].value as i64 by {
        assert(ps.contains(k));
        let j = choose|j: int| 0 <= j < ps.len() && ps[j] == k;
        assert(us[j].vout_idx == k as i32);
    }
}

} // verus!
