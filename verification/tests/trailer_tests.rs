use elf2bin::error::FormatError;
use elf2bin::hex::{hex_digit, hexdump};
use elf2bin::trailer::{
    checksum, embed_checksum, embed_digest, rewrite_trailer, validate_trailer, MAGIC_SIZE,
    MAGIC_STRING,
};
use sha2::{Digest, Sha256};

const MAGIC: [u8; 38] = [
    0x01, 0x02, 0x03, 0x04, 0x05, 0x06, 0x07, 0x08, 0x09, 0x0a, 0x0b, 0x0c, 0x0d, 0x0e, 0x0f,
    0x10, 0x11, 0x12, 0x13, 0x14, 0x15, 0x16, 0x17, 0x18, 0x19, 0x1a, 0x1b, 0x1c, 0x1d, 0x1e,
    0x1f, 0x20, 0x28, 0x00, 0x78, 0x56, 0x34, 0x12,
];

const SHA256_OF_NOTHING: [u8; 32] = [
    0xe3, 0xb0, 0xc4, 0x42, 0x98, 0xfc, 0x1c, 0x14, 0x9a, 0xfb, 0xf4, 0xc8, 0x99, 0x6f, 0xb9,
    0x24, 0x27, 0xae, 0x41, 0xe4, 0x64, 0x9b, 0x93, 0x4c, 0xa4, 0x95, 0x99, 0x1b, 0x78, 0x52,
    0xb8, 0x55,
];

const SHA256_OF_HELLO_WORLD: [u8; 32] = [
    0xb9, 0x4d, 0x27, 0xb9, 0x93, 0x4d, 0x3e, 0x08, 0xa5, 0x2e, 0x52, 0xd7, 0xda, 0x7d, 0xab,
    0xfa, 0xc4, 0x84, 0xef, 0xe3, 0x7a, 0x53, 0x80, 0xee, 0x90, 0x88, 0xf7, 0xac, 0xe2, 0xef,
    0xcd, 0xe9,
];

fn image_with_body(body: &[u8]) -> Vec<u8> {
    let mut image = body.to_vec();
    image.extend_from_slice(&MAGIC);
    image
}

fn sample_body(len: usize) -> Vec<u8> {
    (0..len).map(|i| (i * 7 + 3) as u8).collect()
}

#[test]
fn magic_string_has_two_digits_per_trailer_byte() {
    assert_eq!(MAGIC_SIZE, 38);
    assert_eq!(MAGIC_STRING.len(), 2 * MAGIC_SIZE);
    assert_eq!(hexdump(&MAGIC), MAGIC_STRING);
}

#[test]
fn hex_digits_are_lowercase() {
    let digits: Vec<&str> = (0u8..16).map(hex_digit).collect();
    assert_eq!(digits.concat(), "0123456789abcdef");
}

#[test]
fn hexdump_renders_high_digit_first() {
    assert_eq!(hexdump(&[]), "");
    assert_eq!(hexdump(&[0x00]), "00");
    assert_eq!(hexdump(&[0x1f]), "1f");
    assert_eq!(hexdump(&[0xf1, 0x0a, 0xff]), "f10aff");
    assert_eq!(hexdump(&[0xde, 0xad, 0xbe, 0xef]), "deadbeef");
}

#[test]
fn hexdump_agrees_with_std_formatting() {
    let bytes: Vec<u8> = (0..=255u8).collect();
    let expected: String = bytes.iter().map(|b| format!("{:02x}", b)).collect();
    assert_eq!(hexdump(&bytes), expected);
}

#[test]
fn bare_magic_trailer_is_rewritten_to_known_bytes() {
    let out = checksum(&MAGIC).unwrap();
    let mut expected = SHA256_OF_NOTHING.to_vec();
    expected.extend_from_slice(&[0x28, 0x00]);
    expected.extend_from_slice(&[0xb4, 0xae, 0x7e, 0x69]);
    assert_eq!(out, expected);
}

#[test]
fn image_of_exactly_trailer_length_keeps_its_length() {
    let out = checksum(&MAGIC).unwrap();
    assert_eq!(out.len(), 38);
    assert_eq!(validate_trailer(&MAGIC), Ok(0));
}

#[test]
fn hello_world_body_is_rewritten_to_known_bytes() {
    let image = image_with_body(b"hello world");
    let out = checksum(&image).unwrap();
    let mut expected = b"hello world".to_vec();
    expected.extend_from_slice(&SHA256_OF_HELLO_WORLD);
    expected.extend_from_slice(&[0x28, 0x00]);
    expected.extend_from_slice(&[0xb4, 0x08, 0x5f, 0xff]);
    assert_eq!(out, expected);
}

#[test]
fn image_of_37_bytes_is_too_short() {
    let image = &MAGIC[1..];
    assert_eq!(image.len(), 37);
    assert_eq!(checksum(image), Err(FormatError::TooShort));
    assert_eq!(validate_trailer(image), Err(FormatError::TooShort));
}

#[test]
fn empty_image_is_too_short() {
    assert_eq!(checksum(&[]), Err(FormatError::TooShort));
}

#[test]
fn image_of_50_bytes_with_other_trailer_is_a_mismatch() {
    let image = [0u8; 50];
    assert_eq!(checksum(&image), Err(FormatError::MagicMismatch));
    assert_eq!(validate_trailer(&image), Err(FormatError::MagicMismatch));
}

#[test]
fn one_changed_trailer_byte_is_a_mismatch() {
    for position in 0..MAGIC_SIZE {
        let mut image = image_with_body(&sample_body(12));
        image[12 + position] ^= 0x10;
        assert_eq!(checksum(&image), Err(FormatError::MagicMismatch));
    }
}

#[test]
fn magic_before_the_end_is_a_mismatch() {
    let mut image = MAGIC.to_vec();
    image.push(0);
    assert_eq!(checksum(&image), Err(FormatError::MagicMismatch));
}

#[test]
fn validate_returns_the_split() {
    let image = image_with_body(&sample_body(100));
    assert_eq!(validate_trailer(&image), Ok(100));
}

#[test]
fn rewriting_twice_gives_the_same_bytes() {
    let image = image_with_body(&sample_body(257));
    let first = checksum(&image).unwrap();
    let second = checksum(&image).unwrap();
    assert_eq!(first, second);
}

#[test]
fn stored_checksum_is_the_crc_of_what_precedes_it() {
    for len in [0usize, 1, 63, 64, 65, 1000] {
        let image = image_with_body(&sample_body(len));
        let out = checksum(&image).unwrap();
        let n = out.len();
        let crc = crc::crc32::checksum_ieee(&out[..n - 4]);
        assert_eq!(&out[n - 4..], &crc.to_be_bytes()[..]);
    }
}

#[test]
fn stored_digest_is_the_sha256_of_the_body() {
    for len in [0usize, 1, 55, 56, 64, 1000] {
        let body = sample_body(len);
        let image = image_with_body(&body);
        let out = checksum(&image).unwrap();
        let digest = Sha256::digest(&body);
        assert_eq!(&out[len..len + 32], digest.as_slice());
    }
}

#[test]
fn body_and_fixed_field_are_preserved() {
    let body = sample_body(300);
    let image = image_with_body(&body);
    let out = checksum(&image).unwrap();
    assert_eq!(out.len(), image.len());
    assert_eq!(&out[..300], &body[..]);
    assert_eq!(&out[332..334], &[0x28, 0x00]);
    assert_eq!(&out[332..334], &MAGIC[32..34]);
}

#[test]
fn rewritten_image_is_no_longer_accepted() {
    let image = image_with_body(&sample_body(20));
    let out = checksum(&image).unwrap();
    assert_eq!(checksum(&out), Err(FormatError::MagicMismatch));
}

#[test]
fn embed_digest_overwrites_the_first_32_trailer_bytes_only() {
    let image = image_with_body(&[0xaa, 0xbb, 0xcc]);
    let digest: [u8; 32] = core::array::from_fn(|i| 0x80 + i as u8);
    let out = embed_digest(&image, &digest);
    assert_eq!(out.len(), image.len());
    assert_eq!(&out[..3], &[0xaa, 0xbb, 0xcc]);
    assert_eq!(&out[3..35], &digest[..]);
    assert_eq!(&out[35..], &MAGIC[32..]);
}

#[test]
fn embed_checksum_writes_most_significant_byte_first() {
    let mut image = vec![9u8, 1, 2, 3, 4];
    embed_checksum(&mut image, 0x1234_5678);
    assert_eq!(image, vec![9u8, 0x12, 0x34, 0x56, 0x78]);

    let mut only_field = vec![0xffu8; 4];
    embed_checksum(&mut only_field, 1);
    assert_eq!(only_field, vec![0u8, 0, 0, 1]);
}

#[test]
fn rewrite_trailer_fills_any_trailer_of_full_length() {
    let image = vec![0x5au8; 40];
    let out = rewrite_trailer(&image);
    let digest = Sha256::digest(&image[..2]);
    assert_eq!(&out[..2], &image[..2]);
    assert_eq!(&out[2..34], digest.as_slice());
    assert_eq!(&out[34..36], &[0x5a, 0x5a]);
    let crc = crc::crc32::checksum_ieee(&out[..36]);
    assert_eq!(&out[36..], &crc.to_be_bytes()[..]);
}

#[test]
fn crc_of_check_string_is_the_standard_value() {
    let mut image = b"123456789".to_vec();
    image.extend_from_slice(&[0, 0, 0, 0]);
    let crc = crc::crc32::checksum_ieee(b"123456789");
    assert_eq!(crc, 0xcbf4_3926);
    embed_checksum(&mut image, crc);
    assert_eq!(&image[9..], &[0xcb, 0xf4, 0x39, 0x26]);
}

#[test]
fn error_messages_name_the_magic_string() {
    assert_eq!(
        FormatError::MagicMismatch.message(),
        "invalid ELF file; the magic string doesn't match"
    );
    assert_eq!(
        FormatError::TooShort.message(),
        "invalid ELF file; it is shorter than the magic string"
    );
}
