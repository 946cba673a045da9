//! The raw image buffer and its field-update operations.
//!
//! A [`RawImage`] owns the bytes of the image being prepared, together
//! with the path the bytes came from.  Its length is fixed at creation:
//! every update overwrites a field in place and never grows or shrinks
//! the buffer, since growing would desynchronise every fixed manifest
//! offset downstream.

use vstd::prelude::*;
use vstd::slice::slice_subrange;
use vstd::slice::slice_to_vec;

use crate::ImageError;
use crate::codec::is_valid_scalar;
use crate::codec::scalar_bytes;
use crate::codec::str_to_vec_u8;
use crate::config::ParsedConfig;
use crate::config::PeripheralLockdownInfo;
use crate::manifest::ROM_EXT_EXTENSION0_CHECKSUM_OFFSET;
use crate::manifest::ROM_EXT_EXTENSION0_OFFSET_OFFSET;
use crate::manifest::ROM_EXT_EXTENSION1_CHECKSUM_OFFSET;
use crate::manifest::ROM_EXT_EXTENSION1_OFFSET_OFFSET;
use crate::manifest::ROM_EXT_EXTENSION2_CHECKSUM_OFFSET;
use crate::manifest::ROM_EXT_EXTENSION2_OFFSET_OFFSET;
use crate::manifest::ROM_EXT_EXTENSION3_CHECKSUM_OFFSET;
use crate::manifest::ROM_EXT_EXTENSION3_OFFSET_OFFSET;
use crate::manifest::ROM_EXT_IMAGE_SIGNATURE_OFFSET;
use crate::manifest::ROM_EXT_IMAGE_TIMESTAMP_OFFSET;
use crate::manifest::ROM_EXT_IMAGE_VERSION_OFFSET;
use crate::manifest::ROM_EXT_MANIFEST_IDENTIFIER_OFFSET;
use crate::manifest::ROM_EXT_SIGNATURE_KEY_MODULUS_OFFSET;
use crate::manifest::ROM_EXT_SIGNATURE_KEY_PUBLIC_EXPONENT_OFFSET;
use crate::manifest::ROM_EXT_SIGNED_AREA_START_OFFSET;
use crate::manifest::ROM_EXT_USAGE_CONSTRAINTS_OFFSET;

verus! {

/// `data` with the bytes `[offset, offset + field.len())` replaced by
/// `field`, everything else unchanged.
pub open spec fn splice_bytes(data: Seq<u8>, offset: int, field: Seq<u8>) -> Seq<u8> {
    data.take(offset) + field + data.skip(offset + field.len())
}

/// A field write leaves the buffer length unchanged, reads back exactly
/// the written bytes, and touches no byte outside the field.
pub proof fn lemma_splice_readback(data: Seq<u8>, offset: int, field: Seq<u8>)
    requires
        0 <= offset,
        offset + field.len() <= data.len(),
    ensures
        splice_bytes(data, offset, field).len() == data.len(),
        splice_bytes(data, offset, field).subrange(offset, offset + field.len()) == field,
        forall|i: int|
            0 <= i < offset ==> #[trigger] splice_bytes(data, offset, field)[i] == data[i],
        forall|i: int|
            offset + field.len() <= i < data.len() ==> #[trigger] splice_bytes(
                data,
                offset,
                field,
            )[i] == data[i],
{
    assert(splice_bytes(data, offset, field).subrange(offset, offset + field.len()) =~= field);
}

/// One step of the static-field patch: encode the scalar `value` and
/// write it at `offset`, unless an earlier step already failed.
pub open spec fn scalar_write_step(
    acc: Result<Seq<u8>, ImageError>,
    value: Seq<char>,
    offset: int,
) -> Result<Seq<u8>, ImageError> {
    match acc {
        Result::Err(e) => Result::Err(e),
        Result::Ok(data) => if !is_valid_scalar(value) {
            Result::Err(ImageError::MalformedScalar)
        } else if offset + scalar_bytes(value).len() > data.len() {
            Result::Err(ImageError::FieldOverflow)
        } else {
            Result::Ok(splice_bytes(data, offset, scalar_bytes(value)))
        },
    }
}

/// One step of the patch that writes the raw bytes `blob` at `offset`,
/// unless an earlier step already failed.
pub open spec fn blob_write_step(
    acc: Result<Seq<u8>, ImageError>,
    blob: Seq<u8>,
    offset: int,
) -> Result<Seq<u8>, ImageError> {
    match acc {
        Result::Err(e) => Result::Err(e),
        Result::Ok(data) => if offset + blob.len() > data.len() {
            Result::Err(ImageError::FieldOverflow)
        } else {
            Result::Ok(splice_bytes(data, offset, blob))
        },
    }
}

/// The image bytes after all configuration-derived fields are written,
/// in order: identifier, version, timestamp, the four extension
/// offset/checksum pairs, and the usage constraints blob; or the first
/// error that the sequence of writes runs into.
pub open spec fn static_fields_patched(
    data: Seq<u8>,
    config: ParsedConfig,
    usage_constraints: Seq<u8>,
) -> Result<Seq<u8>, ImageError> {
    let r = Result::Ok(data);
    let r = scalar_write_step(
        r,
        config.manifest_identifier@,
        ROM_EXT_MANIFEST_IDENTIFIER_OFFSET as int,
    );
    let r = scalar_write_step(r, config.image_version@, ROM_EXT_IMAGE_VERSION_OFFSET as int);
    let r = scalar_write_step(r, config.image_timestamp@, ROM_EXT_IMAGE_TIMESTAMP_OFFSET as int);
    let r = scalar_write_step(
        r,
        config.extension0_offset@,
        ROM_EXT_EXTENSION0_OFFSET_OFFSET as int,
    );
    let r = scalar_write_step(
        r,
        config.extension0_checksum@,
        ROM_EXT_EXTENSION0_CHECKSUM_OFFSET as int,
    );
    let r = scalar_write_step(
        r,
        config.extension1_offset@,
        ROM_EXT_EXTENSION1_OFFSET_OFFSET as int,
    );
    let r = scalar_write_step(
        r,
        config.extension1_checksum@,
        ROM_EXT_EXTENSION1_CHECKSUM_OFFSET as int,
    );
    let r = scalar_write_step(
        r,
        config.extension2_offset@,
        ROM_EXT_EXTENSION2_OFFSET_OFFSET as int,
    );
    let r = scalar_write_step(
        r,
        config.extension2_checksum@,
        ROM_EXT_EXTENSION2_CHECKSUM_OFFSET as int,
    );
    let r = scalar_write_step(
        r,
        config.extension3_offset@,
        ROM_EXT_EXTENSION3_OFFSET_OFFSET as int,
    );
    let r = scalar_write_step(
        r,
        config.extension3_checksum@,
        ROM_EXT_EXTENSION3_CHECKSUM_OFFSET as int,
    );
    blob_write_step(r, usage_constraints, ROM_EXT_USAGE_CONSTRAINTS_OFFSET as int)
}

/// Stripped binary image buffer.
pub struct RawImage {
    data: Vec<u8>,
    path: Vec<u8>,
}

impl View for RawImage {
    type V = Seq<u8>;

    closed spec fn view(&self) -> Seq<u8> {
        self.data@
    }
}

impl RawImage {
    /// The path the image bytes were read from.
    pub closed spec fn path_bytes(&self) -> Seq<u8> {
        self.path@
    }

    /// Creates the image buffer from the raw binary bytes and the path
    /// they were read from.
    pub fn new(data: Vec<u8>, path: Vec<u8>) -> (r: Self)
        ensures
            r@ == data@,
            r.path_bytes() == path@,
    {
        RawImage { data, path }
    }

    /// The current length of the image in bytes.
    pub fn len(&self) -> (r: usize)
        ensures
            r == self@.len(),
    {
        self.data.len()
    }

    /// The image bytes, read-only.
    pub fn as_bytes(&self) -> (r: &[u8])
        ensures
            r@ == self@,
    {
        self.data.as_slice()
    }

    /// Overwrites exactly `field_data.len()` bytes starting at
    /// `field_offset`.
    ///
    /// Succeeds exactly when the field lies within the image; a write
    /// that would run past the end fails with `FieldOverflow` and
    /// leaves the buffer untouched.  The buffer length never changes.
    pub fn update_field(&mut self, field_data: &[u8], field_offset: u32) -> (r: Result<
        (),
        ImageError,
    >)
        ensures
            final(self).path_bytes() == old(self).path_bytes(),
            final(self)@.len() == old(self)@.len(),
            r is Ok <==> field_offset + field_data@.len() <= old(self)@.len(),
            r is Ok ==> final(self)@ == splice_bytes(
                old(self)@,
                field_offset as int,
                field_data@,
            ),
            r is Err ==> final(self)@ == old(self)@,
            r matches Err(e) ==> e == ImageError::FieldOverflow,
    {
        let off = field_offset as usize;
        if off > self.data.len() || field_data.len() > self.data.len() - off {
            return Err(ImageError::FieldOverflow);
        }
        let mut i: usize = 0;
        while i < field_data.len()
            invariant
                i <= field_data@.len(),
                off + field_data@.len() <= old(self)@.len(),
                off + field_data@.len() <= usize::MAX,
                self.path@ == old(self).path_bytes(),
                self.data@ == old(self)@.take(off as int) + field_data@.take(i as int) + old(
                    self,
                )@.skip(off + i),
            decreases field_data@.len() - i,
        {
            self.data.set(off + i, field_data[i]);
            proof {
                assert(self.data@ =~= old(self)@.take(off as int) + field_data@.take(i + 1) + old(
                    self,
                )@.skip(off + i + 1));
            }
            i = i + 1;
        }
        proof {
            assert(field_data@.take(field_data@.len() as int) =~= field_data@);
        }
        Ok(())
    }

    /// Updates the fields from the configuration file.
    ///
    /// Writes the configuration-supplied scalar values and the usage
    /// constraints blob into their manifest fields.  Other fields, like
    /// the signature key public exponent and modulus, are obtained at
    /// run time and written separately.
    ///
    /// The writes are validated up front: on any error the buffer is
    /// left untouched, and the error is the one the first failing write
    /// would have produced.
    #[verifier::rlimit(100)]
    #[verifier::spinoff_prover]
    pub fn update_static_fields(
        &mut self,
        config: &ParsedConfig,
        usage_constraints: &[u8],
    ) -> (r: Result<(), ImageError>)
        ensures
            final(self).path_bytes() == old(self).path_bytes(),
            final(self)@.len() == old(self)@.len(),
            r is Ok <==> static_fields_patched(old(self)@, *config, usage_constraints@) is Ok,
            r is Ok ==> Result::<Seq<u8>, ImageError>::Ok(final(self)@) == static_fields_patched(
                old(self)@,
                *config,
                usage_constraints@,
            ),
            r matches Err(e) ==> final(self)@ == old(self)@ && static_fields_patched(
                old(self)@,
                *config,
                usage_constraints@,
            ) == Result::<Seq<u8>, ImageError>::Err(e),
    {
        let image_len = self.data.len();
        let b_ident = match encode_field(
            &config.manifest_identifier,
            ROM_EXT_MANIFEST_IDENTIFIER_OFFSET,
            image_len,
        ) {
            Ok(b) => b,
            Err(e) => {
                return Err(e);
            },
        };
        let b_version = match encode_field(
            &config.image_version,
            ROM_EXT_IMAGE_VERSION_OFFSET,
            image_len,
        ) {
            Ok(b) => b,
            Err(e) => {
                return Err(e);
            },
        };
        let b_timestamp = match encode_field(
            &config.image_timestamp,
            ROM_EXT_IMAGE_TIMESTAMP_OFFSET,
            image_len,
        ) {
            Ok(b) => b,
            Err(e) => {
                return Err(e);
            },
        };
        let b_ext0_off = match encode_field(
            &config.extension0_offset,
            ROM_EXT_EXTENSION0_OFFSET_OFFSET,
            image_len,
        ) {
            Ok(b) => b,
            Err(e) => {
                return Err(e);
            },
        };
        let b_ext0_ck = match encode_field(
            &config.extension0_checksum,
            ROM_EXT_EXTENSION0_CHECKSUM_OFFSET,
            image_len,
        ) {
            Ok(b) => b,
            Err(e) => {
                return Err(e);
            },
        };
        let b_ext1_off = match encode_field(
            &config.extension1_offset,
            ROM_EXT_EXTENSION1_OFFSET_OFFSET,
            image_len,
        ) {
            Ok(b) => b,
            Err(e) => {
                return Err(e);
            },
        };
        let b_ext1_ck = match encode_field(
            &config.extension1_checksum,
            ROM_EXT_EXTENSION1_CHECKSUM_OFFSET,
            image_len,
        ) {
            Ok(b) => b,
            Err(e) => {
                return Err(e);
            },
        };
        let b_ext2_off = match encode_field(
            &config.extension2_offset,
            ROM_EXT_EXTENSION2_OFFSET_OFFSET,
            image_len,
        ) {
            Ok(b) => b,
            Err(e) => {
                return Err(e);
            },
        };
        let b_ext2_ck = match encode_field(
            &config.extension2_checksum,
            ROM_EXT_EXTENSION2_CHECKSUM_OFFSET,
            image_len,
        ) {
            Ok(b) => b,
            Err(e) => {
                return Err(e);
            },
        };
        let b_ext3_off = match encode_field(
            &config.extension3_offset,
            ROM_EXT_EXTENSION3_OFFSET_OFFSET,
            image_len,
        ) {
            Ok(b) => b,
            Err(e) => {
                return Err(e);
            },
        };
        let b_ext3_ck = match encode_field(
            &config.extension3_checksum,
            ROM_EXT_EXTENSION3_CHECKSUM_OFFSET,
            image_len,
        ) {
            Ok(b) => b,
            Err(e) => {
                return Err(e);
            },
        };
        let uc_off = ROM_EXT_USAGE_CONSTRAINTS_OFFSET as usize;
        if uc_off > image_len || usage_constraints.len() > image_len - uc_off {
            return Err(ImageError::FieldOverflow);
        }
        let _ = self.update_field(b_ident.as_slice(), ROM_EXT_MANIFEST_IDENTIFIER_OFFSET);
        let _ = self.update_field(b_version.as_slice(), ROM_EXT_IMAGE_VERSION_OFFSET);
        let _ = self.update_field(b_timestamp.as_slice(), ROM_EXT_IMAGE_TIMESTAMP_OFFSET);
        let _ = self.update_field(b_ext0_off.as_slice(), ROM_EXT_EXTENSION0_OFFSET_OFFSET);
        let _ = self.update_field(b_ext0_ck.as_slice(), ROM_EXT_EXTENSION0_CHECKSUM_OFFSET);
        let _ = self.update_field(b_ext1_off.as_slice(), ROM_EXT_EXTENSION1_OFFSET_OFFSET);
        let _ = self.update_field(b_ext1_ck.as_slice(), ROM_EXT_EXTENSION1_CHECKSUM_OFFSET);
        let _ = self.update_field(b_ext2_off.as_slice(), ROM_EXT_EXTENSION2_OFFSET_OFFSET);
        let _ = self.update_field(b_ext2_ck.as_slice(), ROM_EXT_EXTENSION2_CHECKSUM_OFFSET);
        let _ = self.update_field(b_ext3_off.as_slice(), ROM_EXT_EXTENSION3_OFFSET_OFFSET);
        let _ = self.update_field(b_ext3_ck.as_slice(), ROM_EXT_EXTENSION3_CHECKSUM_OFFSET);
        let _ = self.update_field(usage_constraints, ROM_EXT_USAGE_CONSTRAINTS_OFFSET);
        Ok(())
    }

    /// Writes the signature key public exponent field.
    pub fn update_exponent_field(&mut self, exponent: &[u8]) -> (r: Result<(), ImageError>)
        ensures
            final(self).path_bytes() == old(self).path_bytes(),
            final(self)@.len() == old(self)@.len(),
            r is Ok <==> ROM_EXT_SIGNATURE_KEY_PUBLIC_EXPONENT_OFFSET + exponent@.len() <= old(
                self,
            )@.len(),
            r is Ok ==> final(self)@ == splice_bytes(
                old(self)@,
                ROM_EXT_SIGNATURE_KEY_PUBLIC_EXPONENT_OFFSET as int,
                exponent@,
            ),
            r is Err ==> final(self)@ == old(self)@,
            r matches Err(e) ==> e == ImageError::FieldOverflow,
    {
        self.update_field(exponent, ROM_EXT_SIGNATURE_KEY_PUBLIC_EXPONENT_OFFSET)
    }

    /// Writes the signature key modulus field.
    pub fn update_modulus_field(&mut self, modulus: &[u8]) -> (r: Result<(), ImageError>)
        ensures
            final(self).path_bytes() == old(self).path_bytes(),
            final(self)@.len() == old(self)@.len(),
            r is Ok <==> ROM_EXT_SIGNATURE_KEY_MODULUS_OFFSET + modulus@.len() <= old(self)@.len(),
            r is Ok ==> final(self)@ == splice_bytes(
                old(self)@,
                ROM_EXT_SIGNATURE_KEY_MODULUS_OFFSET as int,
                modulus@,
            ),
            r is Err ==> final(self)@ == old(self)@,
            r matches Err(e) ==> e == ImageError::FieldOverflow,
    {
        self.update_field(modulus, ROM_EXT_SIGNATURE_KEY_MODULUS_OFFSET)
    }

    /// Writes the image signature field.
    pub fn update_signature_field(&mut self, signature: &[u8]) -> (r: Result<(), ImageError>)
        ensures
            final(self).path_bytes() == old(self).path_bytes(),
            final(self)@.len() == old(self)@.len(),
            r is Ok <==> ROM_EXT_IMAGE_SIGNATURE_OFFSET + signature@.len() <= old(self)@.len(),
            r is Ok ==> final(self)@ == splice_bytes(
                old(self)@,
                ROM_EXT_IMAGE_SIGNATURE_OFFSET as int,
                signature@,
            ),
            r is Err ==> final(self)@ == old(self)@,
            r matches Err(e) ==> e == ImageError::FieldOverflow,
    {
        self.update_field(signature, ROM_EXT_IMAGE_SIGNATURE_OFFSET)
    }

    /// The image-derived portion of the bytes to be signed: everything
    /// from the signed-area start to the end of the image.  All field
    /// patching must happen before this is taken.
    pub fn data_to_sign(&self) -> (r: &[u8])
        requires
            ROM_EXT_SIGNED_AREA_START_OFFSET as int <= self@.len(),
        ensures
            r@ == self@.skip(ROM_EXT_SIGNED_AREA_START_OFFSET as int),
    {
        let offset = ROM_EXT_SIGNED_AREA_START_OFFSET as usize;
        let r = slice_subrange(self.data.as_slice(), offset, self.data.len());
        proof {
            assert(r@ =~= self@.skip(ROM_EXT_SIGNED_AREA_START_OFFSET as int));
        }
        r
    }

    /// Writes the usage constraints blob into its manifest region.
    pub fn update_usage_constraints_field(&mut self, usage_constraints: &[u8]) -> (r: Result<
        (),
        ImageError,
    >)
        ensures
            final(self).path_bytes() == old(self).path_bytes(),
            final(self)@.len() == old(self)@.len(),
            r is Ok <==> ROM_EXT_USAGE_CONSTRAINTS_OFFSET + usage_constraints@.len() <= old(
                self,
            )@.len(),
            r is Ok ==> final(self)@ == splice_bytes(
                old(self)@,
                ROM_EXT_USAGE_CONSTRAINTS_OFFSET as int,
                usage_constraints@,
            ),
            r is Err ==> final(self)@ == old(self)@,
            r matches Err(e) ==> e == ImageError::FieldOverflow,
    {
        self.update_field(usage_constraints, ROM_EXT_USAGE_CONSTRAINTS_OFFSET)
    }

    /// Encodes the peripheral lockdown information into its 128-bit
    /// manifest field.
    ///
    /// The platform has not yet fixed how the configured value maps
    /// onto the 128-bit field, so no bytes are written; the image is
    /// returned unchanged.
    pub fn update_peripheral_lockdown_info_field(&mut self, info: &PeripheralLockdownInfo)
        ensures
            final(self).path_bytes() == old(self).path_bytes(),
            final(self)@ == old(self)@,
    {
        let _ = info;
    }

    /// The path under which the finished image is persisted: the file
    /// name of the source path prefixed with `new_`, in the same
    /// directory.  The result is never equal to the source path, so
    /// persisting can never overwrite the source file.
    pub fn output_file_path(&self) -> (r: Vec<u8>)
        ensures
            r@ == derived_output_path(self.path_bytes()),
            r@.len() == self.path_bytes().len() + 4,
            r@ != self.path_bytes(),
    {
        proof {
            lemma_output_path_differs(self.path_bytes());
        }
        let n = self.path.len();
        let mut k: usize = n;
        proof {
            assert(self.path@.take(n as int) =~= self.path@);
        }
        while k > 0 && self.path[k - 1] != 47
            invariant
                k <= n,
                n == self.path@.len(),
                file_name_start(self.path@) == file_name_start(self.path@.take(k as int)),
            decreases k,
        {
            proof {
                assert(self.path@.take(k as int).drop_last() =~= self.path@.take(k - 1));
                assert(self.path@.take(k as int).last() == self.path@[k - 1]);
            }
            k = k - 1;
        }
        proof {
            if k > 0 {
                assert(self.path@.take(k as int).last() == self.path@[k - 1]);
            }
            assert(file_name_start(self.path@) == k as int);
        }
        let mut r = slice_to_vec(slice_subrange(self.path.as_slice(), 0, k));
        r.push(110);
        r.push(101);
        r.push(119);
        r.push(95);
        proof {
            assert(r@ =~= self.path@.take(k as int) + output_marker_bytes() + self.path@.subrange(
                k as int,
                k as int,
            ));
        }
        let mut j: usize = k;
        while j < n
            invariant
                k <= j <= n,
                n == self.path@.len(),
                r@ == self.path@.take(k as int) + output_marker_bytes() + self.path@.subrange(
                    k as int,
                    j as int,
                ),
            decreases n - j,
        {
            r.push(self.path[j]);
            proof {
                assert(r@ =~= self.path@.take(k as int) + output_marker_bytes()
                    + self.path@.subrange(k as int, j + 1));
            }
            j = j + 1;
        }
        proof {
            assert(self.path@.subrange(k as int, n as int) =~= self.path@.skip(k as int));
            assert(r@ == derived_output_path(self.path_bytes()));
        }
        r
    }
}

/// The bytes of the marker prepended to the file name of the output
/// image: `new_`.
pub open spec fn output_marker_bytes() -> Seq<u8> {
    seq![110u8, 101u8, 119u8, 95u8]
}

/// Index at which the file name starts within a path: one past the
/// last path separator, or the start of the path when it has none.
pub open spec fn file_name_start(path: Seq<u8>) -> int
    decreases path.len(),
{
    if path.len() == 0 {
        0
    } else if path.last() == 47 {
        path.len() as int
    } else {
        file_name_start(path.drop_last())
    }
}

/// The derived output path: the same directory, with the file name
/// prefixed by the output marker.
pub open spec fn derived_output_path(path: Seq<u8>) -> Seq<u8> {
    path.take(file_name_start(path)) + output_marker_bytes() + path.skip(file_name_start(path))
}

/// The file name start is a position within the path.
pub proof fn lemma_file_name_start_bounds(path: Seq<u8>)
    ensures
        0 <= file_name_start(path) <= path.len(),
    decreases path.len(),
{
    if path.len() > 0 && path.last() != 47 {
        lemma_file_name_start_bounds(path.drop_last());
    }
}

/// The derived output path is four bytes longer than the source path,
/// so it never names the source file.
pub proof fn lemma_output_path_differs(path: Seq<u8>)
    ensures
        derived_output_path(path).len() == path.len() + 4,
        derived_output_path(path) != path,
{
    lemma_file_name_start_bounds(path);
    assert(derived_output_path(path).len() != path.len());
}

/// Encodes one scalar configuration value and checks that it fits at
/// `offset` in an image of `image_len` bytes.
fn encode_field(value: &str, offset: u32, image_len: usize) -> (r: Result<Vec<u8>, ImageError>)
    ensures
        r is Ok <==> (is_valid_scalar(value@) && offset + scalar_bytes(value@).len() <= image_len),
        r matches Ok(b) ==> b@ == scalar_bytes(value@),
        r matches Err(e) ==> if is_valid_scalar(value@) {
            e == ImageError::FieldOverflow
        } else {
            e == ImageError::MalformedScalar
        },
{
    let b = match str_to_vec_u8(value) {
        Ok(b) => b,
        Err(e) => {
            return Err(e);
        },
    };
    let off = offset as usize;
    if off > image_len || b.len() > image_len - off {
        return Err(ImageError::FieldOverflow);
    }
    Ok(b)
}

} // verus!
