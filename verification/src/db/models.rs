//! Records read from the block explorer and written for the database.

use vstd::prelude::*;

verus! {

/// An inclusion proof as the block explorer reports it: the sibling hashes
/// from the leaf up, in display (byte reversed) hexadecimal, and the leaf's
/// position among the block's transactions.
#[derive(Debug, Clone)]
pub struct MerkleProof {
    pub block_height: u32,
    pub merkle: Vec<String>,
    pub pos: usize,
}

/// A transaction as the block explorer lists it for an address.
#[derive(Debug, Clone)]
pub struct TX {
    pub txid: String,
    pub version: i32,
    pub locktime: i64,
    pub vin: Vec<TVin>,
    pub vout: Vec<TVout>,
    pub status: Status,
    pub fee: u64,
}

/// A transaction input, with the output it spends when the explorer knows it.
#[derive(Debug, Clone)]
pub struct TVin {
    pub txid: String,
    pub vout: u32,
    pub prevout: Option<TVout>,
    pub scriptsig: String,
    pub sequence: u64,
}

/// A transaction output.
#[derive(Debug, Clone)]
pub struct TVout {
    pub scriptpubkey: String,
    pub scriptpubkey_address: Option<String>,
    pub value: u64,
}

/// Where a transaction stands on the chain.
#[derive(Debug, Clone)]
pub struct Status {
    pub confirmed: bool,
    pub block_height: Option<i32>,
    pub block_hash: Option<String>,
    pub block_time: Option<i64>,
}

/// The claims carried by an access token: the user's id, as text, and the
/// expiry time in seconds since the epoch.
#[derive(Debug, Clone)]
pub struct Claims {
    pub sub: String,
    pub exp: i64,
}

/// The service's settings.
#[derive(Debug, Clone)]
pub struct Config {
    pub database_url: String,
    pub jwt_secret: String,
    pub port: u16,
    pub ip_musk: Option<String>,
    pub network: bool,
    pub reorg_limit: u16,
}

/// An input, as stored beside an output of the transaction.
#[derive(Debug, Clone)]
pub struct VinJson {
    pub txid: String,
    pub vout: u32,
    pub scriptsig: String,
    pub sequence: u64,
}

/// An output, as stored beside an output of the transaction.
#[derive(Debug, Clone)]
pub struct VoutJson {
    pub n: usize,
    pub value: u64,
    pub scriptpubkey: String,
    pub address: Option<String>,
}

/// An output paid to a tracked address, as it is saved.
#[derive(Debug, Clone)]
pub struct UtxoPayload {
    pub address_id: i32,
    pub txid: String,
    pub vout_idx: i32,
    pub block_hash: String,
    /// Seconds since the epoch.
    pub block_time: i64,
    pub vouts: Vec<VoutJson>,
    pub vins: Vec<VinJson>,
    pub value: i64,
    pub block_height: i32,
    pub is_confirmed: bool,
}

/// The last block the indexer recorded, or where it starts.
#[derive(Debug, Clone)]
pub struct InfoResponse {
    pub height: u32,
    pub hash_rpc: String,
    /// The same block hash in internal byte order.
    pub hash_p2p: [u8; 32],
}

/// The value of a transaction output.
pub struct TVoutView {
    pub scriptpubkey: Seq<char>,
    pub scriptpubkey_address: Option<Seq<char>>,
    pub value: u64,
}

/// The value of a transaction input.
pub struct TVinView {
    pub txid: Seq<char>,
    pub vout: u32,
    pub prevout: Option<TVoutView>,
    pub scriptsig: Seq<char>,
    pub sequence: u64,
}

/// The value of a transaction's status.
pub struct StatusView {
    pub confirmed: bool,
    pub block_height: Option<i32>,
    pub block_hash: Option<Seq<char>>,
    pub block_time: Option<i64>,
}

/// The value of a transaction.
pub struct TxView {
    pub txid: Seq<char>,
    pub version: i32,
    pub locktime: i64,
    pub vin: Seq<TVinView>,
    pub vout: Seq<TVoutView>,
    pub status: StatusView,
    pub fee: u64,
}

/// The value of a stored input.
pub struct VinJsonView {
    pub txid: Seq<char>,
    pub vout: u32,
    pub scriptsig: Seq<char>,
    pub sequence: u64,
}

/// The value of a stored output.
pub struct VoutJsonView {
    pub n: usize,
    pub value: u64,
    pub scriptpubkey: Seq<char>,
    pub address: Option<Seq<char>>,
}

/// The value of an output to save.
pub struct UtxoPayloadView {
    pub address_id: i32,
    pub txid: Seq<char>,
    pub vout_idx: i32,
    pub block_hash: Seq<char>,
    pub block_time: i64,
    pub vouts: Seq<VoutJsonView>,
    pub vins: Seq<VinJsonView>,
    pub value: i64,
    pub block_height: i32,
    pub is_confirmed: bool,
}

impl DeepView for TVout {
    type V = TVoutView;

    open spec fn deep_view(&self) -> TVoutView {
        TVoutView {
            scriptpubkey: self.scriptpubkey@,
            scriptpubkey_address: self.scriptpubkey_address.deep_view(),
            value: self.value,
        }
    }
}

impl DeepView for TVin {
    type V = TVinView;

    open spec fn deep_view(&self) -> TVinView {
        TVinView {
            txid: self.txid@,
            vout: self.vout,
            prevout: self.prevout.deep_view(),
            scriptsig: self.scriptsig@,
            sequence: self.sequence,
        }
    }
}

impl DeepView for Status {
    type V = StatusView;

    open spec fn deep_view(&self) -> StatusView {
        StatusView {
            confirmed: self.confirmed,
            block_height: self.block_height,
            block_hash: self.block_hash.deep_view(),
            block_time: self.block_time,
        }
    }
}

impl DeepView for TX {
    type V = TxView;

    open spec fn deep_view(&self) -> TxView {
        TxView {
            txid: self.txid@,
            version: self.version,
            locktime: self.locktime,
            vin: self.vin.deep_view(),
            vout: self.vout.deep_view(),
            status: self.status.deep_view(),
            fee: self.fee,
        }
    }
}

impl DeepView for VinJson {
    type V = VinJsonView;

    open spec fn deep_view(&self) -> VinJsonView {
        VinJsonView {
            txid: self.txid@,
            vout: self.vout,
            scriptsig: self.scriptsig@,
            sequence: self.sequence,
        }
    }
}

impl DeepView for VoutJson {
    type V = VoutJsonView;

    open spec fn deep_view(&self) -> VoutJsonView {
        VoutJsonView {
            n: self.n,
            value: self.value,
            scriptpubkey: self.scriptpubkey@,
            address: self.address.deep_view(),
        }
    }
}

impl DeepView for UtxoPayload {
    type V = UtxoPayloadView;

    open spec fn deep_view(&self) -> UtxoPayloadView {
        UtxoPayloadView {
            address_id: self.address_id,
            txid: self.txid@,
            vout_idx: self.vout_idx,
            block_hash: self.block_hash@,
            block_time: self.block_time,
            vouts: self.vouts.deep_view(),
            vins: self.vins.deep_view(),
            value: self.value,
            block_height: self.block_height,
            is_confirmed: self.is_confirmed,
        }
    }
}

} // verus!
