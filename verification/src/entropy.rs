use vstd::prelude::*;

verus! {

/// A bitcoin block header, field by field as consensus encodes it.
#[derive(Debug, Clone, Copy)]
pub struct BlockHeader {
    pub version: i32,
    pub prev_blockhash: [u8; 32],
    pub merkle_root: [u8; 32],
    pub time: u32,
    pub bits: u32,
    pub nonce: u32,
}

/// The hash of a block header: the bytes of `bitcoin::block::Header::block_hash`
/// for the header with these fields.
pub uninterp spec fn block_hash_of(
    version: i32,
    prev_blockhash: Seq<u8>,
    merkle_root: Seq<u8>,
    time: u32,
    bits: u32,
    nonce: u32,
) -> Seq<u8>;

/// The hash of `header` as the block hash names it.
pub open spec fn header_hash(header: BlockHeader) -> Seq<u8> {
    block_hash_of(
        header.version,
        header.prev_blockhash@,
        header.merkle_root@,
        header.time,
        header.bits,
        header.nonce,
    )
}

/// Builds a `bitcoin::block::Header` from the fields and calls its `block_hash`, then
/// `to_byte_array` on the result. Claimed: the 32 bytes depend on the header's fields
/// alone, so they are named by `block_hash_of`; what the bytes are (a double SHA-256 of
/// the 80-byte encoding) is not stated.
#[verifier::external_body]
pub(crate) fn header_block_hash(header: &BlockHeader) -> (hash: [u8; 32])
    ensures
        hash@ == block_hash_of(
            header.version,
            header.prev_blockhash@,
            header.merkle_root@,
            header.time,
            header.bits,
            header.nonce,
        ),
{
    let h = bitcoin::block::Header {
        version: bitcoin::block::Version::from_consensus(header.version),
        prev_blockhash: bitcoin::hashes::Hash::from_byte_array(header.prev_blockhash),
        merkle_root: bitcoin::hashes::Hash::from_byte_array(header.merkle_root),
        time: header.time,
        bits: bitcoin::CompactTarget::from_consensus(header.bits),
        nonce: header.nonce,
    };
    bitcoin::hashes::Hash::to_byte_array(h.block_hash())
}

} // verus!
