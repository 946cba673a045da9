//! Configuration values used for the manifest initialisation.
//!
//! The values arrive already parsed from the human-authored
//! configuration file; reading and deserialising that file is the
//! caller's business.  Scalar fields hold decimal or `0x`-prefixed
//! hexadecimal unsigned integer strings (see [`crate::codec`]).

use vstd::prelude::*;

verus! {

/// Paths of the input files that a signing run needs.
pub struct InputFiles {
    /// Path of the raw binary image.
    pub image_path: String,
    /// Path of the DER-encoded private signing key.
    pub private_key_der_path: String,
    /// Path of the opaque usage constraints blob.
    pub usage_constraints_path: String,
    /// Path of the system state value source.
    pub system_state_value_path: String,
}

/// Peripheral lockdown information configuration data.
///
/// This value is destined for a 128-bit encoded manifest field; the
/// encoding itself is an open platform question (see
/// [`crate::image::RawImage::update_peripheral_lockdown_info_field`]).
pub struct PeripheralLockdownInfo {
    /// The configured lockdown value.
    pub value: u32,
}

/// Configuration used for the manifest initialisation.
pub struct ParsedConfig {
    /// Input file paths.
    pub input_files: InputFiles,
    /// Peripheral lockdown information.
    pub peripheral_lockdown_info: PeripheralLockdownInfo,
    /// Manifest identifier scalar.
    pub manifest_identifier: String,
    /// Image version scalar.
    pub image_version: String,
    /// Image timestamp scalar.
    pub image_timestamp: String,
    /// Extension 0 offset scalar.
    pub extension0_offset: String,
    /// Extension 0 checksum scalar.
    pub extension0_checksum: String,
    /// Extension 1 offset scalar.
    pub extension1_offset: String,
    /// Extension 1 checksum scalar.
    pub extension1_checksum: String,
    /// Extension 2 offset scalar.
    pub extension2_offset: String,
    /// Extension 2 checksum scalar.
    pub extension2_checksum: String,
    /// Extension 3 offset scalar.
    pub extension3_offset: String,
    /// Extension 3 checksum scalar.
    pub extension3_checksum: String,
}

} // verus!
