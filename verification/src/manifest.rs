//! Fixed manifest layout of the ROM extension image.
//!
//! Every field of the manifest lives at a constant byte offset from the
//! start of the image.  These offsets are a wire contract with the boot
//! ROM: they are plain constants, and the lemmas below pin down the two
//! structural facts the signing scheme rests on — the fields do not
//! overlap, and the signature field lies entirely outside the signed
//! region.

use vstd::prelude::*;

verus! {

/// Offset of the manifest identifier field (4 bytes).
pub const ROM_EXT_MANIFEST_IDENTIFIER_OFFSET: u32 = 0;

/// Offset of the image signature field (384 bytes, a 3072-bit RSA
/// signature).  The field ends exactly where the signed region begins,
/// so the signature never covers itself.
pub const ROM_EXT_IMAGE_SIGNATURE_OFFSET: u32 = 8;

/// Width in bytes of the image signature field.
pub const ROM_EXT_IMAGE_SIGNATURE_SIZE: u32 = 384;

/// Offset at which the signed region of the image starts.  Everything
/// from here to the end of the image is covered by the signature.
pub const ROM_EXT_SIGNED_AREA_START_OFFSET: u32 = 392;

/// Offset of the image version field (4 bytes).
pub const ROM_EXT_IMAGE_VERSION_OFFSET: u32 = 392;

/// Offset of the image timestamp field (8 bytes).
pub const ROM_EXT_IMAGE_TIMESTAMP_OFFSET: u32 = 396;

/// Offset of the signature key public exponent field (4 bytes).
pub const ROM_EXT_SIGNATURE_KEY_PUBLIC_EXPONENT_OFFSET: u32 = 404;

/// Offset of the signature key modulus field (384 bytes).
pub const ROM_EXT_SIGNATURE_KEY_MODULUS_OFFSET: u32 = 408;

/// Offset of the usage constraints blob region.  The blob itself is
/// variable-sized; the layout reserves this many bytes for it.
pub const ROM_EXT_USAGE_CONSTRAINTS_OFFSET: u32 = 792;

/// Reserved width in bytes of the usage constraints region.
pub const ROM_EXT_USAGE_CONSTRAINTS_SIZE_MAX: u32 = 1024;

/// Offset of the peripheral lockdown info field (16 bytes, a 128-bit
/// encoded value).
pub const ROM_EXT_PERIPHERAL_LOCKDOWN_INFO_OFFSET: u32 = 1816;

/// Width in bytes of the peripheral lockdown info field.
pub const ROM_EXT_PERIPHERAL_LOCKDOWN_INFO_SIZE: u32 = 16;

/// Offset of the extension 0 offset field (4 bytes).
pub const ROM_EXT_EXTENSION0_OFFSET_OFFSET: u32 = 1832;

/// Offset of the extension 0 checksum field (4 bytes).
pub const ROM_EXT_EXTENSION0_CHECKSUM_OFFSET: u32 = 1836;

/// Offset of the extension 1 offset field (4 bytes).
pub const ROM_EXT_EXTENSION1_OFFSET_OFFSET: u32 = 1840;

/// Offset of the extension 1 checksum field (4 bytes).
pub const ROM_EXT_EXTENSION1_CHECKSUM_OFFSET: u32 = 1844;

/// Offset of the extension 2 offset field (4 bytes).
pub const ROM_EXT_EXTENSION2_OFFSET_OFFSET: u32 = 1848;

/// Offset of the extension 2 checksum field (4 bytes).
pub const ROM_EXT_EXTENSION2_CHECKSUM_OFFSET: u32 = 1852;

/// Offset of the extension 3 offset field (4 bytes).
pub const ROM_EXT_EXTENSION3_OFFSET_OFFSET: u32 = 1856;

/// Offset of the extension 3 checksum field (4 bytes).
pub const ROM_EXT_EXTENSION3_CHECKSUM_OFFSET: u32 = 1860;

/// One byte past the last manifest field: an image must be at least this
/// long for every field to fit.
pub const ROM_EXT_MANIFEST_END: u32 = 1864;

/// The manifest fields as (offset, width) pairs: identifier, signature,
/// version, timestamp, key exponent, key modulus, usage constraints
/// region, peripheral lockdown info, and the four extension
/// offset/checksum pairs.
pub open spec fn layout_fields() -> Seq<(int, int)> {
    seq![
        (ROM_EXT_MANIFEST_IDENTIFIER_OFFSET as int, 4),
        (ROM_EXT_IMAGE_SIGNATURE_OFFSET as int, ROM_EXT_IMAGE_SIGNATURE_SIZE as int),
        (ROM_EXT_IMAGE_VERSION_OFFSET as int, 4),
        (ROM_EXT_IMAGE_TIMESTAMP_OFFSET as int, 8),
        (ROM_EXT_SIGNATURE_KEY_PUBLIC_EXPONENT_OFFSET as int, 4),
        (ROM_EXT_SIGNATURE_KEY_MODULUS_OFFSET as int, 384),
        (ROM_EXT_USAGE_CONSTRAINTS_OFFSET as int, ROM_EXT_USAGE_CONSTRAINTS_SIZE_MAX as int),
        (ROM_EXT_PERIPHERAL_LOCKDOWN_INFO_OFFSET as int, ROM_EXT_PERIPHERAL_LOCKDOWN_INFO_SIZE as int),
        (ROM_EXT_EXTENSION0_OFFSET_OFFSET as int, 4),
        (ROM_EXT_EXTENSION0_CHECKSUM_OFFSET as int, 4),
        (ROM_EXT_EXTENSION1_OFFSET_OFFSET as int, 4),
        (ROM_EXT_EXTENSION1_CHECKSUM_OFFSET as int, 4),
        (ROM_EXT_EXTENSION2_OFFSET_OFFSET as int, 4),
        (ROM_EXT_EXTENSION2_CHECKSUM_OFFSET as int, 4),
        (ROM_EXT_EXTENSION3_OFFSET_OFFSET as int, 4),
        (ROM_EXT_EXTENSION3_CHECKSUM_OFFSET as int, 4),
    ]
}

/// Two byte ranges `(offset, width)` do not share any byte.
pub open spec fn ranges_disjoint(a: (int, int), b: (int, int)) -> bool {
    a.0 + a.1 <= b.0 || b.0 + b.1 <= a.0
}

/// No two manifest fields overlap, and every field ends within an image
/// of at least `ROM_EXT_MANIFEST_END` bytes.
pub proof fn lemma_layout_fields_disjoint()
    ensures
        forall|i: int, j: int|
            0 <= i < layout_fields().len() && 0 <= j < layout_fields().len() && i != j
                ==> ranges_disjoint(#[trigger] layout_fields()[i], #[trigger] layout_fields()[j]),
        forall|i: int|
            0 <= i < layout_fields().len()
                ==> (#[trigger] layout_fields()[i]).0 + layout_fields()[i].1
                    <= ROM_EXT_MANIFEST_END as int,
{
    assert forall|i: int, j: int|
        0 <= i < layout_fields().len() && 0 <= j < layout_fields().len() && i != j
        implies ranges_disjoint(#[trigger] layout_fields()[i], #[trigger] layout_fields()[j]) by {
        let fs = layout_fields();
        assert(fs.len() == 16);
        // The fields are listed in ascending order of offset, except that
        // the version field starts where the signature field ends.
        assert(forall|k: int| 0 <= k < 15 ==> (#[trigger] fs[k]).0 + fs[k].1 <= fs[k + 1].0);
        assert(forall|k: int| 0 <= k < 16 ==> (#[trigger] fs[k]).1 >= 0);
        if i < j {
            lemma_sorted_ranges_disjoint(fs, i, j);
        } else {
            lemma_sorted_ranges_disjoint(fs, j, i);
        }
    }
}

/// In a list of ranges where each range ends at or before the next one
/// starts, any two distinct ranges are disjoint.
proof fn lemma_sorted_ranges_disjoint(fs: Seq<(int, int)>, i: int, j: int)
    requires
        forall|k: int| 0 <= k < fs.len() - 1 ==> (#[trigger] fs[k]).0 + fs[k].1 <= fs[k + 1].0,
        forall|k: int| 0 <= k < fs.len() ==> (#[trigger] fs[k]).1 >= 0,
        0 <= i < j < fs.len(),
    ensures
        fs[i].0 + fs[i].1 <= fs[j].0,
        ranges_disjoint(fs[i], fs[j]),
    decreases j - i,
{
    if i + 1 == j {
    } else {
        lemma_sorted_ranges_disjoint(fs, i, j - 1);
        assert(fs[j - 1].0 + fs[j - 1].1 <= fs[j].0);
    }
}

/// The signature field lies entirely before the signed region, so the
/// signature never covers its own bytes, and every field patched from
/// the configuration or at signing time — version, timestamp, key
/// exponent, key modulus, usage constraints, peripheral lockdown info
/// and the extension fields — lies entirely inside the signed region.
pub proof fn lemma_signature_outside_signed_region()
    ensures
        ROM_EXT_IMAGE_SIGNATURE_OFFSET + ROM_EXT_IMAGE_SIGNATURE_SIZE
            <= ROM_EXT_SIGNED_AREA_START_OFFSET,
        forall|i: int|
            2 <= i < layout_fields().len()
                ==> (#[trigger] layout_fields()[i]).0 >= ROM_EXT_SIGNED_AREA_START_OFFSET as int,
{
}

} // verus!
