//! Block headers and the hashes shown for them.

use vstd::prelude::*;
use crate::hexcodec::{hex_decode, hex_decode_text, hex_encode_text, is_hex_text, reversed};
use crate::merkle::sha256d_digest;
use vstd::arithmetic::power2::pow2;

verus! {

/// An 80-byte Bitcoin block header, with its hashes in internal byte order.
#[derive(Debug, Clone, Copy, PartialEq, Eq)]
pub struct BlockHeader {
    pub version: i32,
    pub prev_blockhash: [u8; 32],
    pub merkle_root: [u8; 32],
    pub time: u32,
    pub bits: u32,
    pub nonce: u32,
}

/// The little endian number in four bytes of `b` from `off` on.
pub open spec fn le_u32(b: Seq<u8>, off: int) -> int {
    b[off] + 256 * b[off + 1] + 65536 * b[off + 2] + 16777216 * b[off + 3]
}

/// The four little endian bytes of a number below 2^32.
pub open spec fn le_bytes(n: u32) -> Seq<u8> {
    seq![(n % 256) as u8, ((n / 256) % 256) as u8, ((n / 65536) % 256) as u8, (n / 16777216) as u8]
}

/// A header read from its 80 consensus bytes.
pub open spec fn header_matches_bytes(h: BlockHeader, b: Seq<u8>) -> bool {
    &&& b.len() == 80
    &&& h.version == le_u32(b, 0) as i32
    &&& h.prev_blockhash@ == b.subrange(4, 36)
    &&& h.merkle_root@ == b.subrange(36, 68)
    &&& h.time == le_u32(b, 68)
    &&& h.bits == le_u32(b, 72)
    &&& h.nonce == le_u32(b, 76)
}

/// The 80 consensus bytes of a header.
pub open spec fn header_bytes(h: BlockHeader) -> Seq<u8> {
    le_bytes(h.version as u32) + h.prev_blockhash@ + h.merkle_root@ + le_bytes(h.time)
        + le_bytes(h.bits) + le_bytes(h.nonce)
}

/// How a 32-byte hash is displayed: its bytes back to front, in lower case hexadecimal.
pub open spec fn hash_display_text(hash: Seq<u8>) -> Seq<char> {
    hex_encode_text(reversed(hash))
}

/// The number that bytes stand for, read little endian (first byte lowest).
pub open spec fn le_number(b: Seq<u8>) -> nat
    decreases b.len(),
{
    if b.len() == 0 {
        0
    } else {
        (b[0] + 256 * le_number(b.drop_first())) as nat
    }
}

/// The target that compact `bits` encode (`Target::from_compact`): the low
/// 24 bits are the mantissa and the top byte the size in bytes; a size of 3
/// or less shifts the mantissa right, a larger one shifts it left by whole
/// bytes (the shift taken modulo 256 and the result modulo 2^256, as the
/// crate's 256-bit shift does); a mantissa above 0x7fffff, negative in the
/// encoding, gives zero.
pub open spec fn compact_target(bits: u32) -> int {
    let size: int = bits as int / 0x100_0000;
    let word: int = bits as int % 0x100_0000;
    let mant: int = if size <= 3 { word / (pow2((8 * (3 - size)) as nat) as int) } else { word };
    let shift: nat = if size <= 3 { 0 } else { ((8 * (size - 3)) % 256) as nat };
    if mant > 0x7F_FFFF {
        0
    } else {
        (mant * pow2(shift)) % (pow2(256) as int)
    }
}

/// Whether the header's hash meets the target that its own `bits` encode
/// (what `Header::validate_pow(header.target())` decides): the double
/// SHA-256 digest of the 80 bytes, read little endian, is at most the target.
pub open spec fn proof_of_work_valid(header: Seq<u8>) -> bool {
    le_number(sha256d_digest(header)) <= compact_target(le_u32(header, 72) as u32)
}

#[verifier::external_type_specification]
#[verifier::external_body]
pub struct ExConsensusError(bitcoin::consensus::encode::Error);

#[verifier::external_type_specification]
#[verifier::external_body]
pub struct ExHexToArrayError(bitcoin::hashes::hex::HexToArrayError);

/// `bitcoin::consensus::deserialize::<bitcoin::block::Header>`: succeeds
/// exactly on 80 bytes (fewer run out, more are left unconsumed), reading the
/// version, the two hashes and the three little endian numbers in that order.
#[verifier::external_body]
pub(crate) fn deserialize_header(bytes: &[u8]) -> (r: Result<BlockHeader, bitcoin::consensus::encode::Error>)
    ensures
        r is Ok <==> bytes@.len() == 80,
        r matches Ok(h) ==> header_matches_bytes(h, bytes@),
{
    match bitcoin::consensus::deserialize::<bitcoin::block::Header>(bytes) {
        Ok(h) => Ok(BlockHeader {
            version: h.version.to_consensus(),
            prev_blockhash: bitcoin::hashes::Hash::to_byte_array(h.prev_blockhash),
            merkle_root: bitcoin::hashes::Hash::to_byte_array(h.merkle_root),
            time: h.time,
            bits: h.bits.to_consensus(),
            nonce: h.nonce,
        }),
        Err(e) => Err(e),
    }
}

/// `bitcoin::block::Header::validate_pow` with the header's own target:
/// `proof_of_work_valid` of the header's consensus bytes.
#[verifier::external_body]
pub(crate) fn header_pow_valid(h: &BlockHeader) -> (r: bool)
    ensures
        r == proof_of_work_valid(header_bytes(*h)),
{
    let header = bitcoin::block::Header {
        version: bitcoin::block::Version::from_consensus(h.version),
        prev_blockhash: <bitcoin::BlockHash as bitcoin::hashes::Hash>::from_byte_array(h.prev_blockhash),
        merkle_root: <bitcoin::TxMerkleNode as bitcoin::hashes::Hash>::from_byte_array(h.merkle_root),
        time: h.time,
        bits: bitcoin::CompactTarget::from_consensus(h.bits),
        nonce: h.nonce,
    };
    header.validate_pow(header.target()).is_ok()
}

/// `bitcoin::block::Header::block_hash`: the double SHA-256 digest of the
/// header's 80 consensus bytes.
#[verifier::external_body]
pub(crate) fn header_block_hash(h: &BlockHeader) -> (r: [u8; 32])
    ensures
        r@ == sha256d_digest(header_bytes(*h)),
{
    let header = bitcoin::block::Header {
        version: bitcoin::block::Version::from_consensus(h.version),
        prev_blockhash: <bitcoin::BlockHash as bitcoin::hashes::Hash>::from_byte_array(h.prev_blockhash),
        merkle_root: <bitcoin::TxMerkleNode as bitcoin::hashes::Hash>::from_byte_array(h.merkle_root),
        time: h.time,
        bits: bitcoin::CompactTarget::from_consensus(h.bits),
        nonce: h.nonce,
    };
    bitcoin::hashes::Hash::to_byte_array(header.block_hash())
}

/// `ToString` of `bitcoin::BlockHash`: the hash shown back to front in lower case hexadecimal.
#[verifier::external_body]
pub(crate) fn block_hash_to_string(hash: &[u8; 32]) -> (r: String)
    ensures
        r@ == hash_display_text(hash@),
{
    <bitcoin::BlockHash as bitcoin::hashes::Hash>::from_byte_array(*hash).to_string()
}

/// `ToString` of `bitcoin::TxMerkleNode`: the hash shown back to front in lower case hexadecimal.
#[verifier::external_body]
pub(crate) fn merkle_node_to_string(hash: &[u8; 32]) -> (r: String)
    ensures
        r@ == hash_display_text(hash@),
{
    <bitcoin::TxMerkleNode as bitcoin::hashes::Hash>::from_byte_array(*hash).to_string()
}

/// `ToString` of `bitcoin::Txid`: the hash shown back to front in lower case hexadecimal.
#[verifier::external_body]
pub(crate) fn txid_to_string(hash: &[u8; 32]) -> (r: String)
    ensures
        r@ == hash_display_text(hash@),
{
    <bitcoin::Txid as bitcoin::hashes::Hash>::from_byte_array(*hash).to_string()
}

/// `FromStr` of `bitcoin::BlockHash`: exactly 64 hexadecimal digits of either
/// case, read as the displayed (back to front) form of the hash.
#[verifier::external_body]
pub(crate) fn block_hash_from_str(s: &str) -> (r: Result<[u8; 32], bitcoin::hashes::hex::HexToArrayError>)
    ensures
        r is Ok <==> (s@.len() == 64 && is_hex_text(s@)),
        r matches Ok(b) ==> b@ == reversed(hex_decode_text(s@)),
{
    match <bitcoin::BlockHash as std::str::FromStr>::from_str(s) {
        Ok(h) => Ok(bitcoin::hashes::Hash::to_byte_array(h)),
        Err(e) => Err(e),
    }
}

/// Why header text could not be read.
#[derive(Debug, Clone, Copy, PartialEq, Eq)]
pub enum HeaderError {
    /// The text is not an even number of hexadecimal digits.
    InvalidHex,
    /// The bytes are not exactly one 80-byte header.
    InvalidLength,
}

/// Reads a block header from the hexadecimal text of its 80 consensus bytes,
/// as the block explorer serves it.
pub fn decode_block_header(hex_string: &str) -> (r: Result<BlockHeader, HeaderError>)
    ensures
        !is_hex_text(hex_string@) ==> r == Err::<BlockHeader, HeaderError>(HeaderError::InvalidHex),
        is_hex_text(hex_string@) && hex_decode_text(hex_string@).len() != 80
            ==> r == Err::<BlockHeader, HeaderError>(HeaderError::InvalidLength),
        is_hex_text(hex_string@) && hex_decode_text(hex_string@).len() == 80 ==> (r matches Ok(h)
            && header_matches_bytes(h, hex_decode_text(hex_string@))),
{
    let bytes = match hex_decode(hex_string) {
        Ok(b) => b,
        Err(_) => {
            return Err(HeaderError::InvalidHex);
        },
    };
    match deserialize_header(bytes.as_slice()) {
        Ok(h) => Ok(h),
        Err(_) => Err(HeaderError::InvalidLength),
    }
}

} // verus!
