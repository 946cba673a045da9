use rom_ext_signer::ImageError;
use rom_ext_signer::codec::encode_u32_le;
use rom_ext_signer::codec::encode_u64_le;
use rom_ext_signer::codec::str_to_vec_u8;

#[test]
fn hex_and_decimal_forms_agree() {
    let from_hex = str_to_vec_u8("0x1A").unwrap();
    let from_dec = str_to_vec_u8("26").unwrap();
    assert_eq!(from_hex, from_dec);
    assert_eq!(from_hex, vec![0x1a, 0x00, 0x00, 0x00]);
}

#[test]
fn zero_encodes_to_four_zero_bytes() {
    assert_eq!(str_to_vec_u8("0").unwrap(), vec![0x00, 0x00, 0x00, 0x00]);
    assert_eq!(str_to_vec_u8("0x0").unwrap(), vec![0x00, 0x00, 0x00, 0x00]);
}

#[test]
fn u32_max_encodes_to_four_bytes() {
    assert_eq!(str_to_vec_u8("4294967295").unwrap(), vec![0xff, 0xff, 0xff, 0xff]);
    assert_eq!(str_to_vec_u8("0xFFFFFFFF").unwrap(), vec![0xff, 0xff, 0xff, 0xff]);
}

#[test]
fn above_u32_max_encodes_to_eight_bytes() {
    assert_eq!(
        str_to_vec_u8("4294967296").unwrap(),
        vec![0x00, 0x00, 0x00, 0x00, 0x01, 0x00, 0x00, 0x00]
    );
}

#[test]
fn u64_max_encodes_to_eight_bytes() {
    assert_eq!(
        str_to_vec_u8("18446744073709551615").unwrap(),
        vec![0xff, 0xff, 0xff, 0xff, 0xff, 0xff, 0xff, 0xff]
    );
    assert_eq!(
        str_to_vec_u8("0xFFFFFFFFFFFFFFFF").unwrap(),
        vec![0xff, 0xff, 0xff, 0xff, 0xff, 0xff, 0xff, 0xff]
    );
}

#[test]
fn value_above_u64_max_is_malformed() {
    assert_eq!(str_to_vec_u8("18446744073709551616"), Err(ImageError::MalformedScalar));
    assert_eq!(str_to_vec_u8("0x10000000000000000"), Err(ImageError::MalformedScalar));
}

#[test]
fn hex_digits_of_both_cases_parse() {
    assert_eq!(str_to_vec_u8("0xDEADBEEF").unwrap(), vec![0xef, 0xbe, 0xad, 0xde]);
    assert_eq!(str_to_vec_u8("0xdeadbeef").unwrap(), vec![0xef, 0xbe, 0xad, 0xde]);
    assert_eq!(str_to_vec_u8("0xaB").unwrap(), vec![0xab, 0x00, 0x00, 0x00]);
}

#[test]
fn empty_string_is_malformed() {
    assert_eq!(str_to_vec_u8(""), Err(ImageError::MalformedScalar));
}

#[test]
fn letters_are_malformed() {
    assert_eq!(str_to_vec_u8("xyz"), Err(ImageError::MalformedScalar));
}

#[test]
fn negative_looking_string_is_malformed() {
    assert_eq!(str_to_vec_u8("-1"), Err(ImageError::MalformedScalar));
}

#[test]
fn bare_hex_prefix_is_malformed() {
    assert_eq!(str_to_vec_u8("0x"), Err(ImageError::MalformedScalar));
}

#[test]
fn non_hex_digit_after_prefix_is_malformed() {
    assert_eq!(str_to_vec_u8("0xG1"), Err(ImageError::MalformedScalar));
}

#[test]
fn sign_characters_are_malformed() {
    assert_eq!(str_to_vec_u8("+5"), Err(ImageError::MalformedScalar));
    assert_eq!(str_to_vec_u8(" 5"), Err(ImageError::MalformedScalar));
}

#[test]
fn little_endian_encoders_order_bytes_low_first() {
    assert_eq!(encode_u32_le(0x01020304), vec![0x04, 0x03, 0x02, 0x01]);
    assert_eq!(
        encode_u64_le(0x0102030405060708),
        vec![0x08, 0x07, 0x06, 0x05, 0x04, 0x03, 0x02, 0x01]
    );
}
