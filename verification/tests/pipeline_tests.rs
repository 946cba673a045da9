use rom_ext_signer::ImageError;
use rom_ext_signer::config::InputFiles;
use rom_ext_signer::config::ParsedConfig;
use rom_ext_signer::config::PeripheralLockdownInfo;
use rom_ext_signer::image::RawImage;
use rom_ext_signer::message::build_message;
use rom_ext_signer::message::device_usage_value;
use rom_ext_signer::message::signature_key_modulus_le;
use rom_ext_signer::message::signature_key_public_exponent_le;
use rom_ext_signer::message::system_state_value;
use rom_ext_signer::pipeline::message_to_sign;
use rom_ext_signer::pipeline::prepare_image;

fn acme_config() -> ParsedConfig {
    ParsedConfig {
        input_files: InputFiles {
            image_path: String::from("build/rom_ext.bin"),
            private_key_der_path: String::from("keys/test_key.der"),
            usage_constraints_path: String::from("policy/usage_constraints.bin"),
            system_state_value_path: String::from("policy/system_state.bin"),
        },
        peripheral_lockdown_info: PeripheralLockdownInfo { value: 0 },
        // "ACME" read as a little-endian 32-bit identifier
        manifest_identifier: String::from("0x454D4341"),
        image_version: String::from("1"),
        image_timestamp: String::from("0"),
        extension0_offset: String::from("0"),
        extension0_checksum: String::from("0"),
        extension1_offset: String::from("0"),
        extension1_checksum: String::from("0"),
        extension2_offset: String::from("0"),
        extension2_checksum: String::from("0"),
        extension3_offset: String::from("0"),
        extension3_checksum: String::from("0"),
    }
}

#[test]
fn build_message_concatenates_in_order() {
    assert_eq!(build_message(&[1, 2], &[3], &[4, 5, 6]), vec![1, 2, 3, 4, 5, 6]);
}

#[test]
fn build_message_of_empty_parts_is_empty() {
    assert_eq!(build_message(&[], &[], &[]), Vec::<u8>::new());
    assert_eq!(build_message(&[], &[7], &[]), vec![7]);
    assert_eq!(build_message(&[7], &[], &[8]), vec![7, 8]);
}

#[test]
fn placeholder_values_have_their_fixed_shapes() {
    assert_eq!(system_state_value(), vec![0xa5; 4]);
    assert_eq!(device_usage_value(&[1, 2, 3]), vec![0xa5; 1024]);
    assert_eq!(signature_key_public_exponent_le(), vec![0xa5]);
    assert_eq!(signature_key_modulus_le(), vec![0xa5; 384]);
}

#[test]
fn prepare_image_patches_static_and_key_fields() {
    let mut image = RawImage::new(vec![0u8; 2048], b"rom_ext.bin".to_vec());
    let config = acme_config();
    let usage_constraints = vec![0x22u8; 16];
    assert_eq!(prepare_image(&mut image, &config, &usage_constraints), Ok(()));
    let bytes = image.as_bytes();
    assert_eq!(&bytes[0..4], b"ACME");
    assert_eq!(&bytes[392..396], &[1, 0, 0, 0]);
    assert_eq!(bytes[404], 0xa5);
    assert_eq!(&bytes[408..792], &[0xa5; 384][..]);
    assert_eq!(&bytes[792..808], &[0x22; 16][..]);
    assert_eq!(image.len(), 2048);
}

#[test]
fn prepare_image_fails_on_malformed_scalar() {
    let mut image = RawImage::new(vec![0u8; 2048], b"rom_ext.bin".to_vec());
    let mut config = acme_config();
    config.extension2_checksum = String::from("");
    assert_eq!(
        prepare_image(&mut image, &config, &[0u8; 4]),
        Err(ImageError::MalformedScalar)
    );
}

#[test]
fn message_to_sign_has_the_three_parts_in_order() {
    let mut image = RawImage::new(vec![0u8; 1024], b"rom_ext.bin".to_vec());
    assert_eq!(image.update_field(&[0x33], 392), Ok(()));
    let message = message_to_sign(&image, &[9, 9]);
    assert_eq!(message.len(), 4 + 1024 + (1024 - 392));
    assert_eq!(&message[0..4], &[0xa5; 4][..]);
    assert_eq!(&message[4..1028], &[0xa5; 1024][..]);
    assert_eq!(message[1028], 0x33);
}

#[test]
fn identical_inputs_give_identical_signed_images() {
    let config = acme_config();
    let usage_constraints = vec![0x22u8; 16];
    let signature = vec![0x5au8; 384];

    let mut first = RawImage::new(vec![0u8; 2048], b"rom_ext.bin".to_vec());
    assert_eq!(prepare_image(&mut first, &config, &usage_constraints), Ok(()));
    let first_message = message_to_sign(&first, &usage_constraints);
    assert_eq!(first.update_signature_field(&signature), Ok(()));

    let mut second = RawImage::new(vec![0u8; 2048], b"rom_ext.bin".to_vec());
    assert_eq!(prepare_image(&mut second, &config, &usage_constraints), Ok(()));
    let second_message = message_to_sign(&second, &usage_constraints);
    assert_eq!(second.update_signature_field(&signature), Ok(()));

    assert_eq!(first_message, second_message);
    assert_eq!(first.as_bytes(), second.as_bytes());
}

#[test]
fn different_signatures_differ_only_in_the_signature_field() {
    let config = acme_config();
    let usage_constraints = vec![0x22u8; 16];

    let mut first = RawImage::new(vec![0u8; 2048], b"rom_ext.bin".to_vec());
    assert_eq!(prepare_image(&mut first, &config, &usage_constraints), Ok(()));
    assert_eq!(first.update_signature_field(&[0xbb; 384]), Ok(()));

    let mut second = RawImage::new(vec![0u8; 2048], b"rom_ext.bin".to_vec());
    assert_eq!(prepare_image(&mut second, &config, &usage_constraints), Ok(()));
    assert_eq!(second.update_signature_field(&[0xcc; 384]), Ok(()));

    let first_bytes = first.as_bytes();
    let second_bytes = second.as_bytes();
    assert_eq!(&first_bytes[8..392], &[0xbb; 384][..]);
    assert_eq!(&second_bytes[8..392], &[0xcc; 384][..]);
    assert_eq!(&first_bytes[0..8], &second_bytes[0..8]);
    assert_eq!(&first_bytes[392..], &second_bytes[392..]);
}
