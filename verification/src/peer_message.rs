//! Reading a message from a peer: its frame, and the event it carries as the
//! `bitcoin` crate decodes it. The crate's decoders are called part by part
//! (message, transaction, input, output), each part handed over as its
//! consensus bytes; the library assembles the event from the parts.

use vstd::prelude::*;
use bitcoin::consensus::{deserialize, serialize};
use bitcoin::p2p::message::{NetworkMessage, RawNetworkMessage};
use crate::header::{deserialize_header, header_matches_bytes, BlockHeader};
use crate::p2p::{announced_payload_len, message_payload_len, P2pBlock, P2pInput, P2pOutput, P2pTx,
    PeerEvent, MAX_MSG_SIZE};

verus! {

/// The value of an input of a block's transaction.
pub struct P2pInputView {
    pub prev_txid: Seq<u8>,
    pub prev_vout: u32,
    pub script_sig: Seq<u8>,
    pub sequence: u32,
}

impl DeepView for P2pInput {
    type V = P2pInputView;

    open spec fn deep_view(&self) -> P2pInputView {
        P2pInputView {
            prev_txid: self.prev_txid@,
            prev_vout: self.prev_vout,
            script_sig: self.script_sig@,
            sequence: self.sequence,
        }
    }
}

/// The value of an output of a block's transaction.
pub struct P2pOutputView {
    pub value: u64,
    pub script_pubkey: Seq<u8>,
}

impl DeepView for P2pOutput {
    type V = P2pOutputView;

    open spec fn deep_view(&self) -> P2pOutputView {
        P2pOutputView { value: self.value, script_pubkey: self.script_pubkey@ }
    }
}

/// The value of a block's transaction.
pub struct P2pTxView {
    pub txid: Seq<u8>,
    pub inputs: Seq<P2pInputView>,
    pub outputs: Seq<P2pOutputView>,
}

impl DeepView for P2pTx {
    type V = P2pTxView;

    open spec fn deep_view(&self) -> P2pTxView {
        P2pTxView { txid: self.txid@, inputs: self.inputs.deep_view(), outputs: self.outputs.deep_view() }
    }
}

/// The value of a full block.
pub struct P2pBlockView {
    pub header: BlockHeader,
    pub txs: Seq<P2pTxView>,
}

impl DeepView for P2pBlock {
    type V = P2pBlockView;

    open spec fn deep_view(&self) -> P2pBlockView {
        P2pBlockView { header: self.header, txs: self.txs.deep_view() }
    }
}

/// The value of a message from a peer.
pub enum PeerEventView {
    Version,
    Verack,
    Headers(Option<BlockHeader>),
    Block(P2pBlockView),
    Ping(u64),
    Inv(usize),
    Other,
}

impl DeepView for PeerEvent {
    type V = PeerEventView;

    open spec fn deep_view(&self) -> PeerEventView {
        match self {
            PeerEvent::Version => PeerEventView::Version,
            PeerEvent::Verack => PeerEventView::Verack,
            PeerEvent::Headers(h) => PeerEventView::Headers(*h),
            PeerEvent::Block(b) => PeerEventView::Block(b.deep_view()),
            PeerEvent::Ping(n) => PeerEventView::Ping(*n),
            PeerEvent::Inv(n) => PeerEventView::Inv(*n),
            PeerEvent::Other => PeerEventView::Other,
        }
    }
}

/// A decoded message with its parts still in consensus bytes: the headers
/// of a `headers` message, the header and transactions of a block, and the
/// items of an inventory.
#[derive(Debug, Clone)]
pub enum RawMessage {
    Version,
    Verack,
    Headers(Vec<Vec<u8>>),
    Block(Vec<u8>, Vec<Vec<u8>>),
    Ping(u64),
    Inv(Vec<Vec<u8>>),
    Other,
}

/// The value of a decoded message.
pub enum RawMessageView {
    Version,
    Verack,
    Headers(Seq<Seq<u8>>),
    Block(Seq<u8>, Seq<Seq<u8>>),
    Ping(u64),
    Inv(Seq<Seq<u8>>),
    Other,
}

impl DeepView for RawMessage {
    type V = RawMessageView;

    open spec fn deep_view(&self) -> RawMessageView {
        match self {
            RawMessage::Version => RawMessageView::Version,
            RawMessage::Verack => RawMessageView::Verack,
            RawMessage::Headers(h) => RawMessageView::Headers(h.deep_view()),
            RawMessage::Block(h, t) => RawMessageView::Block(h@, t.deep_view()),
            RawMessage::Ping(n) => RawMessageView::Ping(*n),
            RawMessage::Inv(i) => RawMessageView::Inv(i.deep_view()),
            RawMessage::Other => RawMessageView::Other,
        }
    }
}

/// What `RawNetworkMessage` decoding makes of a whole message (frame and
/// payload): `None` when the bytes are not a message.
pub uninterp spec fn message_parts(bytes: Seq<u8>) -> Option<RawMessageView>;

/// What `Transaction` decoding makes of a transaction's bytes: its id, and
/// its inputs and outputs re-encoded one by one.
pub uninterp spec fn tx_parts(bytes: Seq<u8>) -> Option<(Seq<u8>, Seq<Seq<u8>>, Seq<Seq<u8>>)>;

/// What `TxIn` decoding makes of an input's bytes.
pub uninterp spec fn txin_of(bytes: Seq<u8>) -> Option<P2pInputView>;

/// What `TxOut` decoding makes of an output's bytes.
pub uninterp spec fn txout_of(bytes: Seq<u8>) -> Option<P2pOutputView>;

/// `bitcoin::consensus::deserialize::<RawNetworkMessage>` on a whole
/// message, its payload told apart by kind; the headers of a `headers`
/// message, the parts of a block and the items of an inventory are each
/// re-encoded with `serialize` (a header always in 80 bytes). The outcome is
/// named `message_parts`.
#[verifier::external_body]
fn decode_message(bytes: &[u8]) -> (r: Option<RawMessage>)
    ensures
        r.deep_view() == message_parts(bytes@),
        r matches Some(RawMessage::Headers(hs)) ==> forall|i: int| 0 <= i < hs@.len() ==> (#[trigger] hs@[i])@.len() == 80,
        r matches Some(RawMessage::Block(h, _)) ==> h@.len() == 80,
{
    match deserialize::<RawNetworkMessage>(bytes) {
        Ok(m) => Some(match m.payload() {
            NetworkMessage::Version(_) => RawMessage::Version,
            NetworkMessage::Verack => RawMessage::Verack,
            NetworkMessage::Headers(h) => RawMessage::Headers(h.iter().map(serialize).collect()),
            NetworkMessage::Block(b) => RawMessage::Block(serialize(&b.header), b.txdata.iter().map(serialize).collect()),
            NetworkMessage::Ping(n) => RawMessage::Ping(*n),
            NetworkMessage::Inv(i) => RawMessage::Inv(i.iter().map(serialize).collect()),
            _ => RawMessage::Other,
        }),
        Err(_) => None,
    }
}

/// `bitcoin::consensus::deserialize::<Transaction>`, then `compute_txid`, and
/// each input and output re-encoded with `serialize`; named `tx_parts`.
#[verifier::external_body]
fn decode_tx(bytes: &[u8]) -> (r: Option<([u8; 32], Vec<Vec<u8>>, Vec<Vec<u8>>)>)
    ensures
        match r {
            Some((id, ins, outs)) => tx_parts(bytes@) == Some((id@, ins.deep_view(), outs.deep_view())),
            None => tx_parts(bytes@) is None,
        },
{
    match deserialize::<bitcoin::Transaction>(bytes) {
        Ok(t) => Some((
            bitcoin::hashes::Hash::to_byte_array(t.compute_txid()),
            t.input.iter().map(serialize).collect(),
            t.output.iter().map(serialize).collect(),
        )),
        Err(_) => None,
    }
}

/// `bitcoin::consensus::deserialize::<TxIn>`, read into the outpoint, the
/// script's bytes and the sequence number; named `txin_of`.
#[verifier::external_body]
fn decode_txin(bytes: &[u8]) -> (r: Option<P2pInput>)
    ensures
        r.deep_view() == txin_of(bytes@),
{
    match deserialize::<bitcoin::TxIn>(bytes) {
        Ok(i) => Some(P2pInput {
            prev_txid: bitcoin::hashes::Hash::to_byte_array(i.previous_output.txid),
            prev_vout: i.previous_output.vout,
            script_sig: i.script_sig.to_bytes(),
            sequence: i.sequence.to_consensus_u32(),
        }),
        Err(_) => None,
    }
}

/// `bitcoin::consensus::deserialize::<TxOut>`, read into the value in
/// satoshi and the script's bytes; named `txout_of`.
#[verifier::external_body]
fn decode_txout(bytes: &[u8]) -> (r: Option<P2pOutput>)
    ensures
        r.deep_view() == txout_of(bytes@),
{
    match deserialize::<bitcoin::TxOut>(bytes) {
        Ok(o) => Some(P2pOutput { value: o.value.to_sat(), script_pubkey: o.script_pubkey.to_bytes() }),
        Err(_) => None,
    }
}

/// The header that 80 consensus bytes stand for.
pub open spec fn header_of_bytes(b: Seq<u8>) -> BlockHeader {
    choose|h: BlockHeader| header_matches_bytes(h, b)
}

/// The transaction that consensus bytes stand for, when it and each of its
/// inputs and outputs decode.
pub open spec fn tx_event(b: Seq<u8>) -> Option<P2pTxView> {
    match tx_parts(b) {
        Some((id, ins, outs)) => if (forall|i: int| 0 <= i < ins.len() ==> (#[trigger] txin_of(ins[i])) is Some)
            && (forall|i: int| 0 <= i < outs.len() ==> (#[trigger] txout_of(outs[i])) is Some) {
            Some(P2pTxView {
                txid: id,
                inputs: Seq::new(ins.len(), |i: int| txin_of(ins[i])->0),
                outputs: Seq::new(outs.len(), |i: int| txout_of(outs[i])->0),
            })
        } else {
            None
        },
        None => None,
    }
}

/// The block that a header's and transactions' bytes stand for, when each decodes.
pub open spec fn block_event(header: Seq<u8>, txs: Seq<Seq<u8>>) -> Option<P2pBlockView> {
    if header.len() == 80 && forall|i: int| 0 <= i < txs.len() ==> (#[trigger] tx_event(txs[i])) is Some {
        Some(P2pBlockView { header: header_of_bytes(header), txs: Seq::new(txs.len(), |i: int| tx_event(txs[i])->0) })
    } else {
        None
    }
}

/// The event that a whole message (frame and payload) carries; `None` when
/// it, or a part of it, does not decode.
pub open spec fn peer_message_event(bytes: Seq<u8>) -> Option<PeerEventView> {
    match message_parts(bytes) {
        None => None,
        Some(RawMessageView::Version) => Some(PeerEventView::Version),
        Some(RawMessageView::Verack) => Some(PeerEventView::Verack),
        Some(RawMessageView::Headers(hs)) => if hs.len() == 0 {
            Some(PeerEventView::Headers(None))
        } else if hs[0].len() == 80 {
            Some(PeerEventView::Headers(Some(header_of_bytes(hs[0]))))
        } else {
            None
        },
        Some(RawMessageView::Block(h, txs)) => match block_event(h, txs) {
            Some(b) => Some(PeerEventView::Block(b)),
            None => None,
        },
        Some(RawMessageView::Ping(n)) => Some(PeerEventView::Ping(n)),
        Some(RawMessageView::Inv(items)) => Some(PeerEventView::Inv(items.len() as usize)),
        Some(RawMessageView::Other) => Some(PeerEventView::Other),
    }
}

proof fn lemma_header_unique(h: BlockHeader, b: Seq<u8>)
    requires
        header_matches_bytes(h, b),
    ensures
        header_of_bytes(b) == h,
{
    let c = header_of_bytes(b);
    assert(header_matches_bytes(c, b));
    assert(c.prev_blockhash =~= h.prev_blockhash);
    assert(c.merkle_root =~= h.merkle_root);
}

proof fn lemma_bytes_deep_view(v: Vec<u8>)
    ensures
        v.deep_view() == v@,
{
    assert(v.deep_view() =~= v@);
}

fn header_from(bytes: &Vec<u8>) -> (r: Option<BlockHeader>)
    ensures
        bytes@.len() == 80 ==> r == Some(header_of_bytes(bytes@)),
        bytes@.len() != 80 ==> r is None,
{
    match deserialize_header(bytes.as_slice()) {
        Ok(h) => {
            proof {
                lemma_header_unique(h, bytes@);
            }
            Some(h)
        },
        Err(_) => None,
    }
}

fn tx_from(bytes: &Vec<u8>) -> (r: Option<P2pTx>)
    ensures
        r.deep_view() == tx_event(bytes@),
{
    let (txid, ins, outs) = match decode_tx(bytes.as_slice()) {
        Some(p) => p,
        None => {
            return None;
        },
    };
    let ghost insv = ins.deep_view();
    let ghost outsv = outs.deep_view();
    let mut inputs: Vec<P2pInput> = Vec::new();
    let mut i: usize = 0;
    while i < ins.len()
        invariant
            i <= ins@.len(),
            insv == ins.deep_view(),
            outsv == outs.deep_view(),
            tx_parts(bytes@) == Some((txid@, insv, outsv)),
            forall|k: int| 0 <= k < i ==> (#[trigger] txin_of(insv[k])) is Some,
            inputs.deep_view() =~= Seq::new(i as nat, |k: int| txin_of(insv[k])->0),
        decreases ins@.len() - i,
    {
        proof {
            lemma_bytes_deep_view(ins@[i as int]);
        }
        match decode_txin(ins[i].as_slice()) {
            Some(x) => {
                let ghost before = inputs.deep_view();
                let ghost xv = x.deep_view();
                inputs.push(x);
                assert(inputs.deep_view() =~= before.push(xv));
            },
            None => {
                assert(txin_of(insv[i as int]) is None);
                return None;
            },
        }
        i = i + 1;
    }
    let mut outputs: Vec<P2pOutput> = Vec::new();
    let mut j: usize = 0;
    while j < outs.len()
        invariant
            j <= outs@.len(),
            outsv == outs.deep_view(),
            insv == ins.deep_view(),
            tx_parts(bytes@) == Some((txid@, insv, outsv)),
            forall|k: int| 0 <= k < insv.len() ==> (#[trigger] txin_of(insv[k])) is Some,
            inputs.deep_view() =~= Seq::new(insv.len(), |k: int| txin_of(insv[k])->0),
            forall|k: int| 0 <= k < j ==> (#[trigger] txout_of(outsv[k])) is Some,
            outputs.deep_view() =~= Seq::new(j as nat, |k: int| txout_of(outsv[k])->0),
        decreases outs@.len() - j,
    {
        proof {
            lemma_bytes_deep_view(outs@[j as int]);
        }
        match decode_txout(outs[j].as_slice()) {
            Some(x) => {
                let ghost before = outputs.deep_view();
                let ghost xv = x.deep_view();
                outputs.push(x);
                assert(outputs.deep_view() =~= before.push(xv));
            },
            None => {
                assert(txout_of(outsv[j as int]) is None);
                return None;
            },
        }
        j = j + 1;
    }
    Some(P2pTx { txid, inputs, outputs })
}

fn block_from(header: &Vec<u8>, txs: &Vec<Vec<u8>>) -> (r: Option<P2pBlock>)
    ensures
        r.deep_view() == block_event(header@, txs.deep_view()),
{
    let h = match header_from(header) {
        Some(h) => h,
        None => {
            return None;
        },
    };
    let ghost txsv = txs.deep_view();
    let mut out: Vec<P2pTx> = Vec::new();
    let mut i: usize = 0;
    while i < txs.len()
        invariant
            i <= txs@.len(),
            txsv == txs.deep_view(),
            header@.len() == 80,
            h == header_of_bytes(header@),
            forall|k: int| 0 <= k < i ==> (#[trigger] tx_event(txsv[k])) is Some,
            out.deep_view() =~= Seq::new(i as nat, |k: int| tx_event(txsv[k])->0),
        decreases txs@.len() - i,
    {
        proof {
            lemma_bytes_deep_view(txs@[i as int]);
        }
        match tx_from(&txs[i]) {
            Some(t) => {
                let ghost before = out.deep_view();
                let ghost tv = t.deep_view();
                out.push(t);
                assert(out.deep_view() =~= before.push(tv));
            },
            None => {
                assert(tx_event(txsv[i as int]) is None);
                return None;
            },
        }
        i = i + 1;
    }
    Some(P2pBlock { header: h, txs: out })
}

fn event_from(bytes: &[u8]) -> (r: Option<PeerEvent>)
    ensures
        r.deep_view() == peer_message_event(bytes@),
{
    match decode_message(bytes) {
        None => None,
        Some(RawMessage::Version) => Some(PeerEvent::Version),
        Some(RawMessage::Verack) => Some(PeerEvent::Verack),
        Some(RawMessage::Headers(hs)) => {
            if hs.len() == 0 {
                Some(PeerEvent::Headers(None))
            } else {
                proof {
                    lemma_bytes_deep_view(hs@[0]);
                }
                match header_from(&hs[0]) {
                    Some(hd) => Some(PeerEvent::Headers(Some(hd))),
                    None => None,
                }
            }
        },
        Some(RawMessage::Block(h, txs)) => match block_from(&h, &txs) {
            Some(b) => Some(PeerEvent::Block(b)),
            None => None,
        },
        Some(RawMessage::Ping(n)) => Some(PeerEvent::Ping(n)),
        Some(RawMessage::Inv(items)) => Some(PeerEvent::Inv(items.len())),
        Some(RawMessage::Other) => Some(PeerEvent::Other),
    }
}

/// Why a peer's message could not be read.
#[derive(Debug, Clone, Copy, PartialEq, Eq)]
pub enum MessageError {
    /// The header announces a payload larger than `MAX_MSG_SIZE`: its length.
    TooLarge(u32),
    /// The bytes are not a message that the `bitcoin` crate decodes.
    Malformed,
}

/// Reads a peer's message from its 24-byte header and the payload read
/// after it (nothing need be read when the header announces too much): the
/// event it carries, or why there is none.
pub fn read_peer_message(header: &[u8; 24], payload: &[u8]) -> (r: Result<PeerEvent, MessageError>)
    requires
        announced_payload_len(header@) <= MAX_MSG_SIZE ==> payload@.len() == announced_payload_len(header@),
    ensures
        announced_payload_len(header@) > MAX_MSG_SIZE ==> r == Err::<PeerEvent, MessageError>(
            MessageError::TooLarge(announced_payload_len(header@) as u32),
        ),
        announced_payload_len(header@) <= MAX_MSG_SIZE ==> match peer_message_event(header@ + payload@) {
            Some(e) => r matches Ok(x) && x.deep_view() == e,
            None => r == Err::<PeerEvent, MessageError>(MessageError::Malformed),
        },
{
    if let Err(n) = message_payload_len(header) {
        return Err(MessageError::TooLarge(n));
    }
    let mut bytes: Vec<u8> = Vec::new();
    let mut i: usize = 0;
    while i < 24
        invariant
            i <= 24,
            bytes@ =~= header@.subrange(0, i as int),
        decreases 24 - i,
    {
        bytes.push(header[i]);
        i = i + 1;
    }
    let mut j: usize = 0;
    while j < payload.len()
        invariant
            j <= payload@.len(),
            bytes@ =~= header@ + payload@.subrange(0, j as int),
        decreases payload@.len() - j,
    {
        bytes.push(payload[j]);
        j = j + 1;
    }
    assert(payload@.subrange(0, j as int) =~= payload@);
    match event_from(bytes.as_slice()) {
        Some(e) => Ok(e),
        None => Err(MessageError::Malformed),
    }
}

} // verus!
