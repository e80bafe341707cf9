use vstd::prelude::*;

use sha2::Digest;
use vstd::utf8::encode_utf8;

verus! {

/// The SHA-256 digest of a byte sequence. The digest is a pure function of
/// the input bytes; its value is not axiomatised here, only its length.
pub uninterp spec fn sha256_of(bytes: Seq<u8>) -> Seq<u8>;

/// The lowercase hex character for a value below 16.
pub open spec fn hex_digit(n: u8) -> char
    recommends
        n < 16,
{
    if n < 10 {
        ((n + 0x30) as u32) as char
    } else {
        ((n + 0x57) as u32) as char
    }
}

/// Lowercase hex encoding: two digits per byte, high nibble first.
pub open spec fn hex_of(bytes: Seq<u8>) -> Seq<char> {
    Seq::new(
        2 * bytes.len(),
        |i: int|
            if i % 2 == 0 {
                hex_digit(bytes[i / 2] >> 4)
            } else {
                hex_digit(bytes[i / 2] & 0xf)
            },
    )
}

/// The 8 bytes of a 64-bit integer, big-endian.
pub open spec fn u64_be_bytes(x: u64) -> Seq<u8> {
    seq![
        (x >> 56) as u8,
        (x >> 48) as u8,
        (x >> 40) as u8,
        (x >> 32) as u8,
        (x >> 24) as u8,
        (x >> 16) as u8,
        (x >> 8) as u8,
        x as u8,
    ]
}

/// Canonical encoding of an offer: chain id, block number, seller address
/// bytes, blockspace size, start time, end time and seller signature bytes,
/// with every integer as 8 big-endian bytes.
pub open spec fn auction_encoding(
    chain_id: u64,
    block_number: u64,
    seller_address: Seq<char>,
    blockspace_size: u64,
    start_time: u64,
    end_time: u64,
    seller_signature: Seq<char>,
) -> Seq<u8> {
    u64_be_bytes(chain_id) + u64_be_bytes(block_number) + encode_utf8(seller_address) + u64_be_bytes(
        blockspace_size,
    ) + u64_be_bytes(start_time) + u64_be_bytes(end_time) + encode_utf8(seller_signature)
}

/// The auction id determined by the offer fields: the lowercase hex encoding
/// of the SHA-256 digest of the canonical field encoding.
pub open spec fn auction_id_of(
    chain_id: u64,
    block_number: u64,
    seller_address: Seq<char>,
    blockspace_size: u64,
    start_time: u64,
    end_time: u64,
    seller_signature: Seq<char>,
) -> Seq<char> {
    hex_of(
        sha256_of(
            auction_encoding(
                chain_id,
                block_number,
                seller_address,
                blockspace_size,
                start_time,
                end_time,
                seller_signature,
            ),
        ),
    )
}

/// Relies on sha2::Sha256 (through digest::Digest::digest): the SHA-256
/// digest, 32 bytes, a function of the input bytes alone.
#[verifier::external_body]
fn sha256(bytes: &[u8]) -> (r: Vec<u8>)
    ensures
        r@ == sha256_of(bytes@),
        r@.len() == 32,
{
    sha2::Sha256::digest(bytes).to_vec()
}

/// Relies on hex::encode: lowercase hex, two digits per byte, high nibble
/// first.
#[verifier::external_body]
fn hex_encode(bytes: &[u8]) -> (r: String)
    ensures
        r@ == hex_of(bytes@),
{
    hex::encode(bytes)
}

/// Appends the 8 big-endian bytes of `x` to `out`.
fn push_u64_be(out: &mut Vec<u8>, x: u64)
    ensures
        final(out)@ == old(out)@ + u64_be_bytes(x),
{
    out.push(#[verifier::truncate] ((x >> 56) as u8));
    out.push(#[verifier::truncate] ((x >> 48) as u8));
    out.push(#[verifier::truncate] ((x >> 40) as u8));
    out.push(#[verifier::truncate] ((x >> 32) as u8));
    out.push(#[verifier::truncate] ((x >> 24) as u8));
    out.push(#[verifier::truncate] ((x >> 16) as u8));
    out.push(#[verifier::truncate] ((x >> 8) as u8));
    out.push(#[verifier::truncate] (x as u8));
    proof {
        assert(out@ =~= old(out)@ + u64_be_bytes(x));
    }
}

/// Computes the auction id for the given offer fields: SHA-256 over the
/// canonical field encoding, written as lowercase hex.
pub fn compute_auction_id(
    chain_id: u64,
    block_number: u64,
    seller_address: &str,
    blockspace_size: u64,
    start_time: u64,
    end_time: u64,
    seller_signature: &str,
) -> (id: String)
    ensures
        id@ == auction_id_of(
            chain_id,
            block_number,
            seller_address@,
            blockspace_size,
            start_time,
            end_time,
            seller_signature@,
        ),
{
    let mut enc: Vec<u8> = Vec::new();
    push_u64_be(&mut enc, chain_id);
    push_u64_be(&mut enc, block_number);
    enc.extend_from_slice(seller_address.as_bytes());
    push_u64_be(&mut enc, blockspace_size);
    push_u64_be(&mut enc, start_time);
    push_u64_be(&mut enc, end_time);
    enc.extend_from_slice(seller_signature.as_bytes());
    proof {
        assert(enc@ =~= auction_encoding(
            chain_id,
            block_number,
            seller_address@,
            blockspace_size,
            start_time,
            end_time,
            seller_signature@,
        ));
    }
    let digest = sha256(enc.as_slice());
    hex_encode(digest.as_slice())
}

/// Two offers with equal canonical encodings have equal auction ids: the id
/// is a pure function of the field encoding.
pub proof fn lemma_auction_id_pure(
    chain_id: u64,
    block_number: u64,
    seller_address: Seq<char>,
    blockspace_size: u64,
    start_time: u64,
    end_time: u64,
    seller_signature: Seq<char>,
    other_chain_id: u64,
    other_block_number: u64,
    other_seller_address: Seq<char>,
    other_blockspace_size: u64,
    other_start_time: u64,
    other_end_time: u64,
    other_seller_signature: Seq<char>,
)
    requires
        auction_encoding(
            chain_id,
            block_number,
            seller_address,
            blockspace_size,
            start_time,
            end_time,
            seller_signature,
        ) == auction_encoding(
            other_chain_id,
            other_block_number,
            other_seller_address,
            other_blockspace_size,
            other_start_time,
            other_end_time,
            other_seller_signature,
        ),
    ensures
        auction_id_of(
            chain_id,
            block_number,
            seller_address,
            blockspace_size,
            start_time,
            end_time,
            seller_signature,
        ) == auction_id_of(
            other_chain_id,
            other_block_number,
            other_seller_address,
            other_blockspace_size,
            other_start_time,
            other_end_time,
            other_seller_signature,
        ),
{
}

} // verus!
