//! Block headers and their fixed-width binary record.

use crate::store::Error;
use vstd::prelude::*;

verus! {

/// Size in bytes of an encoded block header.
pub const HEADER_SIZE: usize = 80;

/// A block header: everything in a block but its transactions.
#[derive(Clone, Copy, Debug, PartialEq, Eq)]
pub struct BlockHeader {
    /// The protocol version.
    pub version: i32,
    /// Hash of the previous header in the chain.
    pub prev_blockhash: [u8; 32],
    /// Root hash of the merkle tree of the block's transactions.
    pub merkle_root: [u8; 32],
    /// The timestamp of the block, as claimed by the miner.
    pub time: u32,
    /// The difficulty target, in compact form.
    pub bits: u32,
    /// The nonce selected by the miner.
    pub nonce: u32,
}

/// The four bytes of `x`, the least significant first.
pub open spec fn le_bytes(x: u32) -> Seq<u8> {
    seq![
        (x & 0xff) as u8,
        ((x >> 8) & 0xff) as u8,
        ((x >> 16) & 0xff) as u8,
        ((x >> 24) & 0xff) as u8,
    ]
}

impl BlockHeader {
    /// The record of a header: its fields in declaration order, integers in
    /// little-endian byte order (the version in two's complement), hashes as
    /// they are.
    pub open spec fn encoding(self) -> Seq<u8> {
        le_bytes(self.version as u32) + self.prev_blockhash@ + self.merkle_root@ + le_bytes(
            self.time,
        ) + le_bytes(self.bits) + le_bytes(self.nonce)
    }
}

/// Two numbers with the same four bytes are the same number.
pub proof fn lemma_le_bytes_injective(x: u32, y: u32)
    requires
        le_bytes(x) == le_bytes(y),
    ensures
        x == y,
{
    assert(le_bytes(x)[0] == le_bytes(y)[0]);
    assert(le_bytes(x)[1] == le_bytes(y)[1]);
    assert(le_bytes(x)[2] == le_bytes(y)[2]);
    assert(le_bytes(x)[3] == le_bytes(y)[3]);
    assert((x & 0xff) as u8 == (y & 0xff) as u8 && ((x >> 8) & 0xff) as u8 == ((y >> 8) & 0xff) as u8
        && ((x >> 16) & 0xff) as u8 == ((y >> 16) & 0xff) as u8 && ((x >> 24) & 0xff) as u8 == ((y
        >> 24) & 0xff) as u8 ==> x == y) by (bit_vector);
}

/// The header whose record is `record`.
pub open spec fn header_of(record: Seq<u8>) -> BlockHeader {
    choose|h: BlockHeader| h.encoding() == record
}

/// What decoding makes of `bytes`: the header whose record is the first 80
/// bytes, or a decoding error when there are fewer.
pub open spec fn decoding(bytes: Seq<u8>) -> Result<BlockHeader, Error> {
    if bytes.len() >= HEADER_SIZE {
        Ok(header_of(bytes.take(HEADER_SIZE as int)))
    } else {
        Err(Error::Decoding)
    }
}

/// A record is 80 bytes long.
pub proof fn lemma_encoding_len(h: BlockHeader)
    ensures
        h.encoding().len() == HEADER_SIZE,
{
}

/// Two headers with the same record are the same header.
pub proof fn lemma_encoding_injective(a: BlockHeader, b: BlockHeader)
    requires
        a.encoding() == b.encoding(),
    ensures
        a == b,
{
    let ea = a.encoding();
    let eb = b.encoding();
    assert(ea.subrange(0, 4) =~= le_bytes(a.version as u32));
    assert(eb.subrange(0, 4) =~= le_bytes(b.version as u32));
    assert(ea.subrange(4, 36) =~= a.prev_blockhash@);
    assert(eb.subrange(4, 36) =~= b.prev_blockhash@);
    assert(ea.subrange(36, 68) =~= a.merkle_root@);
    assert(eb.subrange(36, 68) =~= b.merkle_root@);
    assert(ea.subrange(68, 72) =~= le_bytes(a.time));
    assert(eb.subrange(68, 72) =~= le_bytes(b.time));
    assert(ea.subrange(72, 76) =~= le_bytes(a.bits));
    assert(eb.subrange(72, 76) =~= le_bytes(b.bits));
    assert(ea.subrange(76, 80) =~= le_bytes(a.nonce));
    assert(eb.subrange(76, 80) =~= le_bytes(b.nonce));
    lemma_le_bytes_injective(a.version as u32, b.version as u32);
    lemma_le_bytes_injective(a.time, b.time);
    lemma_le_bytes_injective(a.bits, b.bits);
    lemma_le_bytes_injective(a.nonce, b.nonce);
    let va = a.version;
    let vb = b.version;
    assert(va as u32 == vb as u32 ==> va == vb) by (bit_vector);
    assert(a.prev_blockhash =~= b.prev_blockhash);
    assert(a.merkle_root =~= b.merkle_root);
}

/// Decoding the record of a header gives back that header.
pub proof fn lemma_decode_encode(h: BlockHeader)
    ensures
        decoding(h.encoding()) == Ok::<BlockHeader, Error>(h),
{
    lemma_encoding_len(h);
    assert(h.encoding().take(HEADER_SIZE as int) =~= h.encoding());
    lemma_encoding_injective(header_of(h.encoding()), h);
}

/// Calls `bitcoin::consensus::encode::serialize` on the `bitcoin::BlockHeader`
/// with the same fields. Trusted: the bytes returned are the six fields in
/// order, each integer as four little-endian bytes and each hash as its 32
/// inner bytes.
#[verifier::external_body]
fn consensus_encode(header: &BlockHeader) -> (bytes: Vec<u8>)
    ensures
        bytes@ == header.encoding(),
{
    bitcoin::consensus::encode::serialize(
        &bitcoin::BlockHeader {
            version: header.version,
            prev_blockhash: bitcoin::hashes::Hash::from_inner(header.prev_blockhash),
            merkle_root: bitcoin::hashes::Hash::from_inner(header.merkle_root),
            time: header.time,
            bits: header.bits,
            nonce: header.nonce,
        },
    )
}

/// Calls `bitcoin::consensus::Decodable::consensus_decode` for
/// `bitcoin::BlockHeader` on `bytes`. Trusted: it reads the six fields from
/// the first 80 bytes, so with 80 bytes or more at hand it yields the header
/// whose record those bytes are, and with fewer it fails.
#[verifier::external_body]
fn consensus_decode(bytes: &[u8]) -> (r: Option<BlockHeader>)
    ensures
        bytes@.len() >= HEADER_SIZE ==> r is Some && r->Some_0.encoding() == bytes@.take(
            HEADER_SIZE as int,
        ),
        bytes@.len() < HEADER_SIZE ==> r is None,
{
    match <bitcoin::BlockHeader as bitcoin::consensus::Decodable>::consensus_decode(bytes) {
        Ok(h) => Some(
            BlockHeader {
                version: h.version,
                prev_blockhash: bitcoin::hashes::Hash::into_inner(h.prev_blockhash),
                merkle_root: bitcoin::hashes::Hash::into_inner(h.merkle_root),
                time: h.time,
                bits: h.bits,
                nonce: h.nonce,
            },
        ),
        Err(_) => None,
    }
}

/// Encodes a header as its 80-byte record.
pub fn encode(header: &BlockHeader) -> (bytes: Vec<u8>)
    ensures
        bytes@ == header.encoding(),
        bytes@.len() == HEADER_SIZE,
{
    consensus_encode(header)
}

/// Decodes the header whose record is the first 80 bytes of `bytes`. Fails
/// with a decoding error exactly when fewer than 80 bytes are given.
pub fn decode(bytes: &[u8]) -> (r: Result<BlockHeader, Error>)
    ensures
        r == decoding(bytes@),
        r is Ok ==> r->Ok_0.encoding() == bytes@.take(HEADER_SIZE as int),
{
    match consensus_decode(bytes) {
        Some(header) => {
            proof {
                lemma_encoding_injective(header_of(bytes@.take(HEADER_SIZE as int)), header);
            }
            Ok(header)
        },
        None => Err(Error::Decoding),
    }
}

} // verus!
