use secrets::encoding;
use secrets::encoding::{Base64Data, DecodeError};
use secrets::sodium::{increment, to_hex};
use secrets::utils::codecs;

#[test]
fn to_hex_test() {
    let data = b"\x12\x34\x56\x78\x9a\xbc\xde\xf0\x12";
    assert_eq!(to_hex(data), "123456789abcdef012");
}

#[test]
fn increment_test() {
    let mut data = b"\xff\xff\xff\x00".to_vec();
    increment(&mut data);
    assert_eq!(data.as_slice(), b"\x00\x00\x00\x01");
    increment(&mut data);
    assert_eq!(data.as_slice(), b"\x01\x00\x00\x01");
}

#[test]
fn increment_wraps_to_zero() {
    let mut data = vec![0xffu8; 3];
    increment(&mut data);
    assert_eq!(data, vec![0u8; 3]);
    let mut empty: Vec<u8> = Vec::new();
    increment(&mut empty);
    assert!(empty.is_empty());
}

#[test]
fn hex_of_nothing_is_empty() {
    assert_eq!(to_hex(b""), "");
    assert_eq!(encoding::to_hex(b"\x00\xff\x0a"), "00ff0a");
}

#[test]
fn hex_has_two_digits_per_byte() {
    let all: Vec<u8> = (0..=255u8).collect();
    let text = to_hex(&all);
    assert_eq!(text.len(), 512);
    for (i, byte) in all.iter().enumerate() {
        assert_eq!(&text[2 * i..2 * i + 2], format!("{:02x}", byte));
    }
}

#[test]
fn base64_encodes_and_decodes() {
    let data = Base64Data(b"hello".to_vec());
    assert_eq!(data.encode(), "aGVsbG8=");
    assert_eq!(data.to_vec(), &b"hello".to_vec());
    assert_eq!(data.clone().0, b"hello".to_vec());
    let back = Base64Data::decode("aGVsbG8=").unwrap();
    assert_eq!(back.0, b"hello".to_vec());
    assert_eq!(Base64Data::decode("not base64!").unwrap_err(), DecodeError::NotBase64);
    assert!(Base64Data::from_decoded(None).is_err());
    assert_eq!(Base64Data::from_decoded(Some(vec![1, 2])).unwrap().0, vec![1, 2]);
}

#[test]
fn key_codecs_use_base64() {
    assert_eq!(codecs::to_base64(&vec![0u8, 1, 2, 3]), "AAECAw==");
    assert_eq!(codecs::from_base64("AAECAw==").unwrap(), vec![0u8, 1, 2, 3]);
    assert_eq!(codecs::from_base64("*").unwrap_err(), DecodeError::NotBase64);
}
