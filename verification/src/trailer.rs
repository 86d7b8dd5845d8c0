//! The trailer at the end of an image: how it is recognised and how it is
//! filled in.
//!
//! An image as it comes from the linker ends with 38 placeholder bytes. The
//! first 32 make room for a SHA-256 digest of everything before the trailer,
//! the next two are fixed, and the last four make room for a big-endian
//! CRC-32 of everything before them.

use crate::error::FormatError;
use crate::hex::{hex_of, hexdump, lemma_hex_injective};
use crate::primitives::{
    be_bytes, be_value, crc32_ieee, lemma_be_bytes_round_trip, sha256, sha256_digest,
    write_u32_be, CRC_SIZE, DIGEST_SIZE,
};
use vstd::prelude::*;
use vstd::slice::slice_subrange;
use vstd::string::StringExecFns;

verus! {

/// The number of bytes in the trailer.
pub const MAGIC_SIZE: usize = 38;

/// The placeholder trailer, in lowercase hexadecimal.
pub const MAGIC_STRING: &'static str =
    "0102030405060708090a0b0c0d0e0f101112131415161718191a1b1c1d1e1f20280078563412";

/// The bytes of the placeholder trailer.
pub open spec fn magic_trailer() -> Seq<u8> {
    seq![
        0x01u8, 0x02, 0x03, 0x04, 0x05, 0x06, 0x07, 0x08,
        0x09, 0x0a, 0x0b, 0x0c, 0x0d, 0x0e, 0x0f, 0x10,
        0x11, 0x12, 0x13, 0x14, 0x15, 0x16, 0x17, 0x18,
        0x19, 0x1a, 0x1b, 0x1c, 0x1d, 0x1e, 0x1f, 0x20,
        0x28, 0x00,
        0x78, 0x56, 0x34, 0x12,
    ]
}

/// Where the trailer of `image` begins.
pub open spec fn split_of(image: Seq<u8>) -> int {
    image.len() - MAGIC_SIZE
}

/// Everything before the trailer.
pub open spec fn body_of(image: Seq<u8>) -> Seq<u8> {
    image.subrange(0, split_of(image))
}

/// The last 38 bytes.
pub open spec fn trailer_of(image: Seq<u8>) -> Seq<u8> {
    image.subrange(split_of(image), image.len() as int)
}

/// The two bytes between the digest and the checksum.
pub open spec fn fixed_field_of(image: Seq<u8>) -> Seq<u8> {
    image.subrange(split_of(image) + DIGEST_SIZE, image.len() - CRC_SIZE)
}

/// The image is long enough, and its trailer renders to the magic string.
pub open spec fn has_magic_trailer(image: Seq<u8>) -> bool {
    &&& image.len() >= MAGIC_SIZE
    &&& hex_of(trailer_of(image)) == MAGIC_STRING@
}

/// The magic string is the rendering of the placeholder bytes.
pub proof fn lemma_magic_string_renders_magic_trailer()
    ensures
        magic_trailer().len() == MAGIC_SIZE,
        hex_of(magic_trailer()) == MAGIC_STRING@,
{
    reveal_strlit("0102030405060708090a0b0c0d0e0f101112131415161718191a1b1c1d1e1f20280078563412");
    assert(hex_of(magic_trailer()) =~= MAGIC_STRING@);
}

/// An image is accepted exactly when it ends with the placeholder bytes.
pub proof fn lemma_has_magic_trailer_iff_ends_with_magic(image: Seq<u8>)
    ensures
        has_magic_trailer(image) <==> image.len() >= MAGIC_SIZE && trailer_of(image)
            == magic_trailer(),
{
    lemma_magic_string_renders_magic_trailer();
    if has_magic_trailer(image) {
        lemma_hex_injective(trailer_of(image), magic_trailer());
    }
}

/// Checks that `image` ends with the placeholder trailer and returns where
/// the trailer begins.
pub fn validate_trailer(image: &[u8]) -> (result: Result<usize, FormatError>)
    ensures
        result is Ok <==> has_magic_trailer(image@),
        result matches Ok(split) ==> split == split_of(image@),
        result == Err::<usize, FormatError>(FormatError::TooShort) <==> image@.len() < MAGIC_SIZE,
        result == Err::<usize, FormatError>(FormatError::MagicMismatch) <==> image@.len()
            >= MAGIC_SIZE && !has_magic_trailer(image@),
{
    let n = image.len();
    if n < MAGIC_SIZE {
        return Err(FormatError::TooShort);
    }
    let split = n - MAGIC_SIZE;
    let crc_block = slice_subrange(image, split, n);
    let rendered = hexdump(crc_block);
    let expected = String::from_str(MAGIC_STRING);
    if rendered != expected {
        return Err(FormatError::MagicMismatch);
    }
    Ok(split)
}

/// The image with the first 32 bytes of its trailer replaced by `digest`.
pub open spec fn with_digest(image: Seq<u8>, digest: Seq<u8>) -> Seq<u8>
    recommends
        image.len() >= MAGIC_SIZE,
        digest.len() == DIGEST_SIZE,
{
    body_of(image) + digest + image.subrange(split_of(image) + DIGEST_SIZE, image.len() as int)
}

/// The bytes that the checksum covers: all but the last four.
pub open spec fn checksummed_part(image: Seq<u8>) -> Seq<u8> {
    image.subrange(0, image.len() - CRC_SIZE)
}

/// The image with its last four bytes replaced by `crc`, most significant
/// byte first.
pub open spec fn with_checksum(image: Seq<u8>, crc: u32) -> Seq<u8>
    recommends
        image.len() >= CRC_SIZE,
{
    checksummed_part(image) + be_bytes(crc)
}

/// The image with its trailer filled in: the digest of the body in the first
/// 32 bytes of the trailer, then the checksum of all that precedes the last
/// four bytes in those four bytes.
pub open spec fn rewritten(image: Seq<u8>) -> Seq<u8>
    recommends
        image.len() >= MAGIC_SIZE,
{
    let hashed = with_digest(image, sha256(body_of(image))@);
    with_checksum(hashed, crc32_ieee(checksummed_part(hashed)))
}

/// Copies `image` and overwrites the first 32 bytes of the copy's trailer
/// with `digest`.
pub fn embed_digest(image: &[u8], digest: &[u8; 32]) -> (out: Vec<u8>)
    requires
        image@.len() >= MAGIC_SIZE,
    ensures
        out@ == with_digest(image@, digest@),
        out@.len() == image@.len(),
{
    let split = image.len() - MAGIC_SIZE;
    let mut out = vstd::slice::slice_to_vec(image);
    let mut i: usize = 0;
    while i < DIGEST_SIZE
        invariant
            i <= DIGEST_SIZE,
            split + MAGIC_SIZE == image.len(),
            out@.len() == image@.len(),
            forall|k: int| 0 <= k < split ==> out@[k] == image@[k],
            forall|k: int| split <= k < split + i ==> out@[k] == digest@[k - split],
            forall|k: int| split + i <= k < out@.len() ==> out@[k] == image@[k],
        decreases DIGEST_SIZE - i,
    {
        out[split + i] = digest[i];
        i += 1;
    }
    assert(out@ =~= with_digest(image@, digest@));
    out
}

/// Overwrites the last four bytes of `image` with `crc`, most significant
/// byte first.
pub fn embed_checksum(image: &mut Vec<u8>, crc: u32)
    requires
        old(image)@.len() >= CRC_SIZE,
    ensures
        final(image)@ == with_checksum(old(image)@, crc),
        final(image)@.len() == old(image)@.len(),
{
    let start = image.len() - CRC_SIZE;
    let mut encoded = [0u8; 4];
    write_u32_be(&mut encoded, crc);
    let mut i: usize = 0;
    while i < CRC_SIZE
        invariant
            i <= CRC_SIZE,
            start + CRC_SIZE == image.len(),
            image@.len() == old(image)@.len(),
            encoded@ == be_bytes(crc),
            forall|k: int| 0 <= k < start ==> image@[k] == old(image)@[k],
            forall|k: int| start <= k < start + i ==> image@[k] == encoded@[k - start],
        decreases CRC_SIZE - i,
    {
        image[start + i] = encoded[i];
        i += 1;
    }
    assert(image@ =~= with_checksum(old(image)@, crc));
}

/// Fills in the trailer of `image`: hashes the body into the first 32 bytes of
/// the trailer, leaves the two fixed bytes alone, and stores the checksum of
/// all that precedes the last four bytes in those four bytes.
pub fn rewrite_trailer(image: &[u8]) -> (out: Vec<u8>)
    requires
        image@.len() >= MAGIC_SIZE,
    ensures
        out@ == rewritten(image@),
        out@.len() == image@.len(),
{
    let n = image.len();
    let split = n - MAGIC_SIZE;
    let no_crc = slice_subrange(image, 0, split);
    let sha = sha256_digest(no_crc);
    let mut post_crc = embed_digest(image, &sha);
    let checksum = crc::crc32::checksum_ieee(slice_subrange(post_crc.as_slice(), 0, n - CRC_SIZE));
    embed_checksum(&mut post_crc, checksum);
    post_crc
}

/// What rewriting makes of an image: the rewritten bytes, or the reason why
/// the image is rejected.
pub open spec fn checksum_of(image: Seq<u8>) -> Result<Seq<u8>, FormatError> {
    if image.len() < MAGIC_SIZE {
        Err(FormatError::TooShort)
    } else if !has_magic_trailer(image) {
        Err(FormatError::MagicMismatch)
    } else {
        Ok(rewritten(image))
    }
}

/// Validates the trailer of `pre_crc` and, if it is the placeholder, returns
/// a copy of the image with the trailer filled in. An image that is rejected
/// yields no bytes at all.
pub fn checksum(pre_crc: &[u8]) -> (result: Result<Vec<u8>, FormatError>)
    ensures
        match result {
            Ok(post_crc) => checksum_of(pre_crc@) == Ok::<Seq<u8>, FormatError>(post_crc@),
            Err(e) => checksum_of(pre_crc@) == Err::<Seq<u8>, FormatError>(e),
        },
        result is Ok <==> has_magic_trailer(pre_crc@),
        result matches Ok(post_crc) ==> post_crc@.len() == pre_crc@.len(),
{
    match validate_trailer(pre_crc) {
        Ok(_) => Ok(rewrite_trailer(pre_crc)),
        Err(e) => Err(e),
    }
}

/// The rewritten image laid out field by field: the body, its digest, the two
/// fixed bytes, and the checksum of those three together. It is as long as
/// the image it was made from.
pub proof fn lemma_rewritten_layout(image: Seq<u8>)
    requires
        image.len() >= MAGIC_SIZE,
    ensures
        rewritten(image).len() == image.len(),
        checksummed_part(rewritten(image)) == body_of(image) + sha256(body_of(image))@
            + fixed_field_of(image),
        rewritten(image) == checksummed_part(rewritten(image)) + be_bytes(
            crc32_ieee(checksummed_part(rewritten(image))),
        ),
{
    let digest = sha256(body_of(image))@;
    let hashed = with_digest(image, digest);
    assert(digest.len() == DIGEST_SIZE);
    assert(checksummed_part(hashed) =~= body_of(image) + digest + fixed_field_of(image));
    assert(checksummed_part(rewritten(image)) =~= checksummed_part(hashed));
}

/// Rewriting is a function of the image alone: an image made of any body and
/// the placeholder trailer is accepted, and the same image always gives the
/// same bytes.
pub proof fn lemma_rewriting_is_deterministic(body: Seq<u8>, first: Seq<u8>, second: Seq<u8>)
    requires
        first == body + magic_trailer(),
        second == body + magic_trailer(),
    ensures
        checksum_of(first) is Ok,
        checksum_of(first) == checksum_of(second),
{
    assert(trailer_of(first) =~= magic_trailer());
    lemma_has_magic_trailer_iff_ends_with_magic(first);
}

/// The last four bytes of a rewritten image are the big-endian CRC-32 of all
/// the bytes before them: read back as a number, they give that CRC-32.
pub proof fn lemma_stored_checksum_matches(image: Seq<u8>)
    requires
        image.len() >= MAGIC_SIZE,
    ensures
        rewritten(image).subrange(image.len() - CRC_SIZE, image.len() as int) == be_bytes(
            crc32_ieee(rewritten(image).subrange(0, image.len() - CRC_SIZE)),
        ),
        be_value(rewritten(image).subrange(image.len() - CRC_SIZE, image.len() as int))
            == crc32_ieee(rewritten(image).subrange(0, image.len() - CRC_SIZE)),
{
    lemma_rewritten_layout(image);
    let out = rewritten(image);
    let crc = crc32_ieee(checksummed_part(out));
    assert(out.subrange(image.len() - CRC_SIZE, image.len() as int) =~= be_bytes(crc));
    lemma_be_bytes_round_trip(crc);
}

/// The first 32 bytes of the rewritten trailer are the SHA-256 digest of the
/// body of the image, and the body itself is unchanged.
pub proof fn lemma_stored_digest_matches(image: Seq<u8>)
    requires
        image.len() >= MAGIC_SIZE,
    ensures
        rewritten(image).subrange(split_of(image), split_of(image) + DIGEST_SIZE) == sha256(
            image.subrange(0, split_of(image)),
        )@,
        body_of(rewritten(image)) == body_of(image),
{
    lemma_rewritten_layout(image);
    let out = rewritten(image);
    let digest = sha256(body_of(image))@;
    assert(digest.len() == DIGEST_SIZE);
    assert(out.subrange(split_of(image), split_of(image) + DIGEST_SIZE) =~= digest);
    assert(body_of(out) =~= body_of(image));
}

/// Rewriting leaves the two fixed bytes of the trailer as they were, so in
/// the rewritten form of an accepted image they are those of the placeholder.
pub proof fn lemma_fixed_field_is_preserved(image: Seq<u8>)
    requires
        image.len() >= MAGIC_SIZE,
    ensures
        fixed_field_of(rewritten(image)) == fixed_field_of(image),
        has_magic_trailer(image) ==> fixed_field_of(rewritten(image)) == magic_trailer().subrange(
            DIGEST_SIZE as int,
            MAGIC_SIZE - CRC_SIZE,
        ),
        has_magic_trailer(image) ==> fixed_field_of(rewritten(image)) == seq![0x28u8, 0x00u8],
{
    lemma_rewritten_layout(image);
    let digest = sha256(body_of(image))@;
    assert(digest.len() == DIGEST_SIZE);
    assert(fixed_field_of(rewritten(image)) =~= fixed_field_of(image));
    if has_magic_trailer(image) {
        lemma_has_magic_trailer_iff_ends_with_magic(image);
        assert(fixed_field_of(image) =~= trailer_of(image).subrange(
            DIGEST_SIZE as int,
            MAGIC_SIZE - CRC_SIZE,
        ));
        assert(magic_trailer().subrange(DIGEST_SIZE as int, MAGIC_SIZE - CRC_SIZE)
            =~= seq![0x28u8, 0x00u8]);
    }
}

} // verus!
