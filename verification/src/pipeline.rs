//! The signing pipeline.
//!
//! A run proceeds in strictly ordered phases: patch the static
//! configuration-derived fields, patch the key-material fields, build
//! the authenticated message, have the signer capability produce the
//! signature over it, embed the signature, and persist under the
//! derived output path.  The functions here perform every phase that is
//! pure computation; reading the inputs, invoking the cryptographic
//! signer and writing the output file are the caller's business, and a
//! failed phase must keep every later phase from running.

use vstd::prelude::*;

use crate::ImageError;
use crate::config::ParsedConfig;
use crate::image::RawImage;
use crate::image::blob_write_step;
use crate::image::splice_bytes;
use crate::image::static_fields_patched;
use crate::manifest::ROM_EXT_IMAGE_SIGNATURE_OFFSET;
use crate::manifest::ROM_EXT_SIGNATURE_KEY_MODULUS_OFFSET;
use crate::manifest::ROM_EXT_SIGNATURE_KEY_PUBLIC_EXPONENT_OFFSET;
use crate::manifest::ROM_EXT_SIGNED_AREA_START_OFFSET;
use crate::message::build_message;
use crate::message::device_usage_bytes;
use crate::message::device_usage_value;
use crate::message::exponent_bytes;
use crate::message::modulus_bytes;
use crate::message::signature_key_modulus_le;
use crate::message::signature_key_public_exponent_le;
use crate::message::system_state_bytes;
use crate::message::system_state_value;

verus! {

/// The image bytes after the static fields and the key-material fields
/// are written: the exponent and modulus follow the static patch, so
/// that both end up inside the signed region.
pub open spec fn prepared_image_bytes(
    data: Seq<u8>,
    config: ParsedConfig,
    usage_constraints: Seq<u8>,
) -> Result<Seq<u8>, ImageError> {
    let r = static_fields_patched(data, config, usage_constraints);
    let r = blob_write_step(r, exponent_bytes(), ROM_EXT_SIGNATURE_KEY_PUBLIC_EXPONENT_OFFSET as int);
    blob_write_step(r, modulus_bytes(), ROM_EXT_SIGNATURE_KEY_MODULUS_OFFSET as int)
}

/// The authenticated message over an already prepared image: system
/// state value, then device usage value, then the image's signed
/// region, in that order.
pub open spec fn message_bytes(data: Seq<u8>) -> Seq<u8> {
    system_state_bytes() + device_usage_bytes() + data.skip(ROM_EXT_SIGNED_AREA_START_OFFSET as int)
}

/// The final image bytes: the prepared image with `signature` written
/// into the signature field.
pub open spec fn signed_image_bytes(
    data: Seq<u8>,
    config: ParsedConfig,
    usage_constraints: Seq<u8>,
    signature: Seq<u8>,
) -> Result<Seq<u8>, ImageError> {
    blob_write_step(
        prepared_image_bytes(data, config, usage_constraints),
        signature,
        ROM_EXT_IMAGE_SIGNATURE_OFFSET as int,
    )
}

/// Patches the static fields and then the key-material fields, in that
/// order, completing every in-memory write that must precede message
/// assembly.
pub fn prepare_image(
    image: &mut RawImage,
    config: &ParsedConfig,
    usage_constraints: &[u8],
) -> (r: Result<(), ImageError>)
    ensures
        final(image).path_bytes() == old(image).path_bytes(),
        final(image)@.len() == old(image)@.len(),
        r is Ok <==> prepared_image_bytes(old(image)@, *config, usage_constraints@) is Ok,
        r is Ok ==> Result::<Seq<u8>, ImageError>::Ok(final(image)@) == prepared_image_bytes(
            old(image)@,
            *config,
            usage_constraints@,
        ),
        r matches Err(e) ==> prepared_image_bytes(old(image)@, *config, usage_constraints@)
            == Result::<Seq<u8>, ImageError>::Err(e),
{
    match image.update_static_fields(config, usage_constraints) {
        Ok(_) => (),
        Err(e) => {
            return Err(e);
        },
    }
    let exponent = signature_key_public_exponent_le();
    match image.update_exponent_field(exponent.as_slice()) {
        Ok(_) => (),
        Err(e) => {
            return Err(e);
        },
    }
    let modulus = signature_key_modulus_le();
    match image.update_modulus_field(modulus.as_slice()) {
        Ok(_) => (),
        Err(e) => {
            return Err(e);
        },
    }
    Ok(())
}

/// Builds the exact byte sequence to be signed for an already prepared
/// image.  All field patching must be complete: the signed region is
/// taken from the image as it stands.
pub fn message_to_sign(image: &RawImage, usage_constraints: &[u8]) -> (r: Vec<u8>)
    requires
        ROM_EXT_SIGNED_AREA_START_OFFSET as int <= image@.len(),
    ensures
        r@ == message_bytes(image@),
{
    let system_state = system_state_value();
    let device_usage = device_usage_value(usage_constraints);
    build_message(system_state.as_slice(), device_usage.as_slice(), image.data_to_sign())
}

/// Embedding the signature does not change the authenticated message:
/// the signature field lies entirely before the signed-area start, so
/// the scheme never signs its own signature bytes.
pub proof fn lemma_message_unaffected_by_signature(data: Seq<u8>, signature: Seq<u8>)
    requires
        ROM_EXT_IMAGE_SIGNATURE_OFFSET + signature.len()
            <= ROM_EXT_SIGNED_AREA_START_OFFSET as int,
        ROM_EXT_SIGNED_AREA_START_OFFSET as int <= data.len(),
    ensures
        message_bytes(splice_bytes(data, ROM_EXT_IMAGE_SIGNATURE_OFFSET as int, signature))
            == message_bytes(data),
{
    crate::image::lemma_splice_readback(data, ROM_EXT_IMAGE_SIGNATURE_OFFSET as int, signature);
    let patched = splice_bytes(data, ROM_EXT_IMAGE_SIGNATURE_OFFSET as int, signature);
    assert(patched.skip(ROM_EXT_SIGNED_AREA_START_OFFSET as int) =~= data.skip(
        ROM_EXT_SIGNED_AREA_START_OFFSET as int,
    ));
}

/// A successful patch never changes the image length: every step
/// overwrites a field in place.
pub proof fn lemma_prepared_image_len(
    data: Seq<u8>,
    config: ParsedConfig,
    usage_constraints: Seq<u8>,
)
    ensures
        prepared_image_bytes(data, config, usage_constraints) matches Ok(d) ==> d.len()
            == data.len(),
{
    assert(static_fields_patched(data, config, usage_constraints) matches Ok(d) ==> d.len()
        == data.len());
}

/// Two signatures of the same length, embedded into the same prepared
/// image, agree on every byte outside the signature field: the
/// signature field reads back as the embedded signature, and all other
/// fields are identical.
pub proof fn lemma_signature_localized(
    data: Seq<u8>,
    config: ParsedConfig,
    usage_constraints: Seq<u8>,
    signature1: Seq<u8>,
    signature2: Seq<u8>,
)
    requires
        prepared_image_bytes(data, config, usage_constraints) is Ok,
        signature1.len() == signature2.len(),
        ROM_EXT_IMAGE_SIGNATURE_OFFSET + signature1.len() <= data.len(),
    ensures
        signed_image_bytes(data, config, usage_constraints, signature1) is Ok,
        signed_image_bytes(data, config, usage_constraints, signature2) is Ok,
        signed_image_bytes(data, config, usage_constraints, signature1)->Ok_0.subrange(
            ROM_EXT_IMAGE_SIGNATURE_OFFSET as int,
            ROM_EXT_IMAGE_SIGNATURE_OFFSET + signature1.len(),
        ) == signature1,
        signed_image_bytes(data, config, usage_constraints, signature2)->Ok_0.subrange(
            ROM_EXT_IMAGE_SIGNATURE_OFFSET as int,
            ROM_EXT_IMAGE_SIGNATURE_OFFSET + signature2.len(),
        ) == signature2,
        forall|i: int|
            0 <= i < data.len() && !(ROM_EXT_IMAGE_SIGNATURE_OFFSET <= i
                < ROM_EXT_IMAGE_SIGNATURE_OFFSET + signature1.len()) ==> signed_image_bytes(
                data,
                config,
                usage_constraints,
                signature1,
            )->Ok_0[i] == signed_image_bytes(data, config, usage_constraints, signature2)->Ok_0[i],
{
    lemma_prepared_image_len(data, config, usage_constraints);
    let prepared = prepared_image_bytes(data, config, usage_constraints)->Ok_0;
    crate::image::lemma_splice_readback(
        prepared,
        ROM_EXT_IMAGE_SIGNATURE_OFFSET as int,
        signature1,
    );
    crate::image::lemma_splice_readback(
        prepared,
        ROM_EXT_IMAGE_SIGNATURE_OFFSET as int,
        signature2,
    );
}

/// In a successfully prepared image the key-material fields hold
/// exactly the exponent and modulus bytes.  Both fields start at or
/// after the signed-area start, so together with
/// [`lemma_message_unaffected_by_signature`] the public key material is
/// bound into what gets signed.
pub proof fn lemma_prepared_key_fields(
    data: Seq<u8>,
    config: ParsedConfig,
    usage_constraints: Seq<u8>,
)
    requires
        prepared_image_bytes(data, config, usage_constraints) is Ok,
    ensures
        prepared_image_bytes(data, config, usage_constraints)->Ok_0.subrange(
            ROM_EXT_SIGNATURE_KEY_PUBLIC_EXPONENT_OFFSET as int,
            ROM_EXT_SIGNATURE_KEY_PUBLIC_EXPONENT_OFFSET + exponent_bytes().len(),
        ) == exponent_bytes(),
        prepared_image_bytes(data, config, usage_constraints)->Ok_0.subrange(
            ROM_EXT_SIGNATURE_KEY_MODULUS_OFFSET as int,
            ROM_EXT_SIGNATURE_KEY_MODULUS_OFFSET + modulus_bytes().len(),
        ) == modulus_bytes(),
        ROM_EXT_SIGNED_AREA_START_OFFSET as int
            <= ROM_EXT_SIGNATURE_KEY_PUBLIC_EXPONENT_OFFSET as int,
        ROM_EXT_SIGNED_AREA_START_OFFSET as int <= ROM_EXT_SIGNATURE_KEY_MODULUS_OFFSET as int,
{
    let statics = static_fields_patched(data, config, usage_constraints)->Ok_0;
    let after_exponent = splice_bytes(
        statics,
        ROM_EXT_SIGNATURE_KEY_PUBLIC_EXPONENT_OFFSET as int,
        exponent_bytes(),
    );
    crate::image::lemma_splice_readback(
        statics,
        ROM_EXT_SIGNATURE_KEY_PUBLIC_EXPONENT_OFFSET as int,
        exponent_bytes(),
    );
    crate::image::lemma_splice_readback(
        after_exponent,
        ROM_EXT_SIGNATURE_KEY_MODULUS_OFFSET as int,
        modulus_bytes(),
    );
    let prepared = prepared_image_bytes(data, config, usage_constraints)->Ok_0;
    assert(prepared == splice_bytes(
        after_exponent,
        ROM_EXT_SIGNATURE_KEY_MODULUS_OFFSET as int,
        modulus_bytes(),
    ));
    assert(prepared.subrange(
        ROM_EXT_SIGNATURE_KEY_PUBLIC_EXPONENT_OFFSET as int,
        ROM_EXT_SIGNATURE_KEY_PUBLIC_EXPONENT_OFFSET + exponent_bytes().len(),
    ) =~= after_exponent.subrange(
        ROM_EXT_SIGNATURE_KEY_PUBLIC_EXPONENT_OFFSET as int,
        ROM_EXT_SIGNATURE_KEY_PUBLIC_EXPONENT_OFFSET + exponent_bytes().len(),
    ));
}

/// The whole pipeline output is a function of its inputs alone: two
/// runs over equal image bytes, equal configuration values, equal
/// usage constraints and equal signature bytes produce byte-identical
/// output images.
pub proof fn lemma_pipeline_deterministic(
    data1: Seq<u8>,
    config1: ParsedConfig,
    usage_constraints1: Seq<u8>,
    signature1: Seq<u8>,
    data2: Seq<u8>,
    config2: ParsedConfig,
    usage_constraints2: Seq<u8>,
    signature2: Seq<u8>,
)
    requires
        data1 == data2,
        config1 == config2,
        usage_constraints1 == usage_constraints2,
        signature1 == signature2,
    ensures
        signed_image_bytes(data1, config1, usage_constraints1, signature1) == signed_image_bytes(
            data2,
            config2,
            usage_constraints2,
            signature2,
        ),
{
}

} // verus!
