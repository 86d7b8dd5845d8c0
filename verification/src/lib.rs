//! Turns the raw bytes of a firmware image into a flashable image by
//! validating the placeholder trailer at its end and filling it with a
//! SHA-256 digest of the body and a CRC-32 of everything before the checksum.

pub mod error;
pub mod hex;
pub mod primitives;
pub mod trailer;

pub use crate::error::FormatError;
pub use crate::trailer::checksum;
