//! The digest, the checksum and the byte order that the trailer is made of.
//!
//! These are computed by the `sha2`, `crc` and `byteorder` crates. What is
//! stated of them here is taken on trust from those crates; everything else in
//! this library is proved from it.

use byteorder::{BigEndian, ByteOrder};
use sha2::{Digest, Sha256};
use vstd::prelude::*;

verus! {

/// The number of bytes in a SHA-256 digest.
pub const DIGEST_SIZE: usize = 32;

/// The number of bytes in an encoded CRC-32.
pub const CRC_SIZE: usize = 4;

/// The SHA-256 digest of `data`, as `sha2` computes it.
pub uninterp spec fn sha256(data: Seq<u8>) -> [u8; 32];

/// The CRC-32 of `data` with the IEEE polynomial, as `crc` computes it.
pub uninterp spec fn crc32_ieee(data: Seq<u8>) -> u32;

/// The four bytes of `n`, most significant first.
pub open spec fn be_bytes(n: u32) -> Seq<u8> {
    seq![
        (n / 0x100_0000) as u8,
        (n / 0x1_0000 % 0x100) as u8,
        (n / 0x100 % 0x100) as u8,
        (n % 0x100) as u8,
    ]
}

/// The number that four bytes spell when the most significant comes first.
pub open spec fn be_value(bytes: Seq<u8>) -> int
    recommends
        bytes.len() == 4,
{
    bytes[0] * 0x100_0000 + bytes[1] * 0x1_0000 + bytes[2] * 0x100 + bytes[3]
}

/// Reading back the big-endian bytes of a number gives that number, so that
/// two numbers with the same bytes are the same number.
pub proof fn lemma_be_bytes_round_trip(n: u32)
    ensures
        be_bytes(n).len() == 4,
        be_value(be_bytes(n)) == n,
{
}

/// Hashes `data` with `sha2::Sha256`: a fresh hasher from `Default::default`,
/// one call of `Digest::input` with all of `data`, then `Digest::result`.
/// Trusted: the 32 bytes that come back are the SHA-256 digest of `data`,
/// which depends on `data` alone.
#[verifier::external_body]
pub(crate) fn sha256_digest(data: &[u8]) -> (digest: [u8; 32])
    ensures
        digest == sha256(data@),
{
    let mut hasher = Sha256::default();
    hasher.input(data);
    hasher.result().into()
}

/// `crc::crc32::checksum_ieee` walks `bytes` once through the table of the
/// reflected IEEE polynomial, starting from all ones and inverting at the end.
/// Trusted: the number it returns is the CRC-32 of `bytes`, which depends on
/// `bytes` alone.
pub assume_specification[ crc::crc32::checksum_ieee ](bytes: &[u8]) -> (crc: u32)
    ensures
        crc == crc32_ieee(bytes@),
;

/// Calls `byteorder::BigEndian::write_u32` on a buffer of exactly four bytes.
/// Trusted: afterwards the buffer holds the bytes of `n`, most significant
/// first.
#[verifier::external_body]
pub(crate) fn write_u32_be(buf: &mut [u8; 4], n: u32)
    ensures
        final(buf)@ == be_bytes(n),
{
    BigEndian::write_u32(buf, n);
}

} // verus!
