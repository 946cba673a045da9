//! Preparation of a signed ROM extension image: manifest field layout,
//! scalar field encoding, in-place patching of a raw image buffer, and
//! assembly of the byte sequence that is authenticated by the image
//! signature.

use vstd::prelude::*;

pub mod codec;
pub mod config;
pub mod image;
pub mod manifest;
pub mod message;
pub mod pipeline;

verus! {

/// Errors that can end a signing run.
#[derive(Clone, Copy, PartialEq, Eq, Structural, Debug)]
pub enum ImageError {
    /// A file could not be read or written.
    IoError,
    /// A required configuration value is missing or malformed.
    ConfigError,
    /// A scalar configuration value is not a valid decimal or
    /// `0x`-prefixed hexadecimal unsigned integer that fits in 64 bits.
    MalformedScalar,
    /// A field write would run past the end of the image buffer.
    FieldOverflow,
    /// The private key could not be parsed, or the signing operation failed.
    SigningError,
}

} // verus!
