use rom_ext_signer::ImageError;
use rom_ext_signer::config::InputFiles;
use rom_ext_signer::config::ParsedConfig;
use rom_ext_signer::config::PeripheralLockdownInfo;
use rom_ext_signer::image::RawImage;

fn zero_image(len: usize) -> RawImage {
    RawImage::new(vec![0u8; len], b"build/rom_ext.bin".to_vec())
}

fn sample_config() -> ParsedConfig {
    ParsedConfig {
        input_files: InputFiles {
            image_path: String::from("build/rom_ext.bin"),
            private_key_der_path: String::from("keys/test_key.der"),
            usage_constraints_path: String::from("policy/usage_constraints.bin"),
            system_state_value_path: String::from("policy/system_state.bin"),
        },
        peripheral_lockdown_info: PeripheralLockdownInfo { value: 7 },
        manifest_identifier: String::from("0x4552544F"),
        image_version: String::from("1"),
        image_timestamp: String::from("1600000000"),
        extension0_offset: String::from("0"),
        extension0_checksum: String::from("0"),
        extension1_offset: String::from("0"),
        extension1_checksum: String::from("0"),
        extension2_offset: String::from("0"),
        extension2_checksum: String::from("0"),
        extension3_offset: String::from("0"),
        extension3_checksum: String::from("0"),
    }
}

#[test]
fn update_field_reads_back_and_keeps_length() {
    let mut image = zero_image(2048);
    let before_len = image.len();
    assert_eq!(image.update_field(&[1, 2, 3], 100), Ok(()));
    assert_eq!(image.len(), before_len);
    assert_eq!(&image.as_bytes()[100..103], &[1, 2, 3]);
    assert_eq!(image.as_bytes()[99], 0);
    assert_eq!(image.as_bytes()[103], 0);
}

#[test]
fn update_field_at_exact_end_succeeds() {
    let mut image = zero_image(16);
    assert_eq!(image.update_field(&[9, 9], 14), Ok(()));
    assert_eq!(&image.as_bytes()[14..16], &[9, 9]);
}

#[test]
fn update_field_past_end_fails_and_leaves_buffer_unmodified() {
    let mut image = zero_image(16);
    let before = image.as_bytes().to_vec();
    assert_eq!(image.update_field(&[1, 2, 3], 14), Err(ImageError::FieldOverflow));
    assert_eq!(image.as_bytes(), &before[..]);
    assert_eq!(image.len(), 16);
}

#[test]
fn update_static_fields_places_every_field() {
    let mut image = zero_image(2048);
    let config = sample_config();
    let usage_constraints = vec![0x11u8; 32];
    assert_eq!(image.update_static_fields(&config, &usage_constraints), Ok(()));
    let bytes = image.as_bytes();
    // identifier 0x4552544F, little endian, at offset 0
    assert_eq!(&bytes[0..4], &[0x4f, 0x54, 0x52, 0x45]);
    // version 1 at offset 392
    assert_eq!(&bytes[392..396], &[1, 0, 0, 0]);
    // timestamp 1600000000 = 0x5F5E1000 at offset 396
    assert_eq!(&bytes[396..400], &[0x00, 0x10, 0x5e, 0x5f]);
    // extension 0 offset/checksum at 1832/1836
    assert_eq!(&bytes[1832..1836], &[0, 0, 0, 0]);
    assert_eq!(&bytes[1836..1840], &[0, 0, 0, 0]);
    // usage constraints blob at 792
    assert_eq!(&bytes[792..824], &vec![0x11u8; 32][..]);
    assert_eq!(bytes[824], 0);
    assert_eq!(image.len(), 2048);
}

#[test]
fn update_static_fields_rejects_malformed_scalar_and_leaves_image() {
    let mut image = zero_image(2048);
    let mut config = sample_config();
    config.image_version = String::from("one");
    let before = image.as_bytes().to_vec();
    assert_eq!(
        image.update_static_fields(&config, &[0u8; 4]),
        Err(ImageError::MalformedScalar)
    );
    assert_eq!(image.as_bytes(), &before[..]);
}

#[test]
fn update_static_fields_rejects_short_image_and_leaves_image() {
    let mut image = zero_image(100);
    let config = sample_config();
    let before = image.as_bytes().to_vec();
    assert_eq!(
        image.update_static_fields(&config, &[0u8; 4]),
        Err(ImageError::FieldOverflow)
    );
    assert_eq!(image.as_bytes(), &before[..]);
}

#[test]
fn update_static_fields_rejects_oversized_usage_constraints() {
    let mut image = zero_image(2048);
    let config = sample_config();
    // every scalar fits, but a blob of 1300 bytes starting at offset
    // 792 would run past the end of a 2048-byte image
    assert_eq!(
        image.update_static_fields(&config, &vec![0u8; 1300]),
        Err(ImageError::FieldOverflow)
    );
}

#[test]
fn key_and_signature_fields_land_at_their_offsets() {
    let mut image = zero_image(2048);
    assert_eq!(image.update_exponent_field(&[0x03]), Ok(()));
    assert_eq!(image.update_modulus_field(&[0x77; 384]), Ok(()));
    assert_eq!(image.update_signature_field(&[0x55; 384]), Ok(()));
    let bytes = image.as_bytes();
    assert_eq!(bytes[404], 0x03);
    assert_eq!(&bytes[408..792], &[0x77; 384][..]);
    assert_eq!(&bytes[8..392], &[0x55; 384][..]);
}

#[test]
fn data_to_sign_is_everything_from_signed_area_start() {
    let mut image = zero_image(1024);
    assert_eq!(image.update_field(&[0xAA], 392), Ok(()));
    assert_eq!(image.update_field(&[0xBB], 1023), Ok(()));
    let signed = image.data_to_sign();
    assert_eq!(signed.len(), 1024 - 392);
    assert_eq!(signed[0], 0xAA);
    assert_eq!(signed[signed.len() - 1], 0xBB);
}

#[test]
fn peripheral_lockdown_info_field_is_left_open() {
    let mut image = zero_image(2048);
    let before = image.as_bytes().to_vec();
    image.update_peripheral_lockdown_info_field(&PeripheralLockdownInfo { value: 3 });
    assert_eq!(image.as_bytes(), &before[..]);
}

#[test]
fn output_path_prefixes_file_name_in_same_directory() {
    let image = RawImage::new(vec![0u8; 512], b"out/dir/rom_ext.bin".to_vec());
    assert_eq!(image.output_file_path(), b"out/dir/new_rom_ext.bin".to_vec());
}

#[test]
fn output_path_of_bare_file_name_gets_prefix() {
    let image = RawImage::new(vec![0u8; 512], b"rom_ext.bin".to_vec());
    assert_eq!(image.output_file_path(), b"new_rom_ext.bin".to_vec());
}

#[test]
fn output_path_never_equals_source_path() {
    let image = RawImage::new(vec![0u8; 512], b"a/b.bin".to_vec());
    assert_ne!(image.output_file_path(), b"a/b.bin".to_vec());
}
