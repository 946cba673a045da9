//! Assembly of the authenticated message.
//!
//! The byte sequence handed to the signer is the concatenation, in this
//! fixed order, of: the system state value, the device usage value, and
//! the signed region of the image.  The order is a wire-level contract
//! with any verifier of the signature, not an implementation detail.

use vstd::prelude::*;
use vstd::slice::slice_to_vec;

use crate::codec::encode_u32_le;
use crate::codec::u32_le_bytes;

verus! {

/// The system state value as bytes.
pub open spec fn system_state_bytes() -> Seq<u8> {
    u32_le_bytes(0xa5a5a5a5u32)
}

/// The device usage value as bytes.
pub open spec fn device_usage_bytes() -> Seq<u8> {
    Seq::new(1024, |i: int| 0xa5u8)
}

/// The little-endian signature key public exponent bytes.
pub open spec fn exponent_bytes() -> Seq<u8> {
    seq![0xa5u8]
}

/// The little-endian signature key modulus bytes.
pub open spec fn modulus_bytes() -> Seq<u8> {
    Seq::new(384, |i: int| 0xa5u8)
}

/// Generates the system state value.
///
/// The platform has not yet fixed the format and size of this value; a
/// 32-bit constant stands in its place.
pub fn system_state_value() -> (r: Vec<u8>)
    ensures
        r@ == system_state_bytes(),
{
    encode_u32_le(0xa5a5a5a5)
}

/// Generates the device usage value.
///
/// This value is extrapolated from the manifest usage constraints, and
/// does not reside in the manifest directly.  The platform has not yet
/// fixed the derivation, so the blob's content is not consulted and a
/// constant vector stands in the derived value's place.
pub fn device_usage_value(usage_constraints: &[u8]) -> (r: Vec<u8>)
    ensures
        r@ == device_usage_bytes(),
{
    let _ = usage_constraints;
    let mut r: Vec<u8> = Vec::new();
    while r.len() < 1024
        invariant
            r@.len() <= 1024,
            forall|i: int| 0 <= i < r@.len() ==> r@[i] == 0xa5u8,
        decreases 1024 - r.len(),
    {
        r.push(0xa5);
    }
    proof {
        assert(r@ =~= device_usage_bytes());
    }
    r
}

/// Generates the signature key public exponent, little endian.
///
/// Eventually this value will be obtained from the private key; a
/// constant stands in its place until the platform fixes that
/// derivation.
pub fn signature_key_public_exponent_le() -> (r: Vec<u8>)
    ensures
        r@ == exponent_bytes(),
{
    let mut r: Vec<u8> = Vec::new();
    r.push(0xa5);
    proof {
        assert(r@ =~= exponent_bytes());
    }
    r
}

/// Generates the signature key modulus, little endian.
///
/// Eventually this value will be obtained from the private key; a
/// constant stands in its place until the platform fixes that
/// derivation.
pub fn signature_key_modulus_le() -> (r: Vec<u8>)
    ensures
        r@ == modulus_bytes(),
{
    let mut r: Vec<u8> = Vec::new();
    while r.len() < 384
        invariant
            r@.len() <= 384,
            forall|i: int| 0 <= i < r@.len() ==> r@[i] == 0xa5u8,
        decreases 384 - r.len(),
    {
        r.push(0xa5);
    }
    proof {
        assert(r@ =~= modulus_bytes());
    }
    r
}

/// Concatenates the three parts of the authenticated message, in order:
/// system state value, device usage value, image signed region.
pub fn build_message(
    system_state: &[u8],
    device_usage: &[u8],
    image_sign_data: &[u8],
) -> (r: Vec<u8>)
    ensures
        r@ == system_state@ + device_usage@ + image_sign_data@,
{
    let mut message = slice_to_vec(system_state);
    let mut usage_part = slice_to_vec(device_usage);
    let mut image_part = slice_to_vec(image_sign_data);
    message.append(&mut usage_part);
    message.append(&mut image_part);
    message
}

} // verus!
