use sms_forwarder::crypto::{base64_encode, decrypt_data, encrypt_data, percent_encode_form};

const KEY: [u8; 16] = [0x42; 16];
const IV: [u8; 16] = [0x24; 16];

#[test]
fn encrypt_decrypt_round_trip() {
    let plaintext = b"{\"body\":\"hello\",\"sound\":\"birdsong\"}";
    let ct = encrypt_data(&KEY, &IV, plaintext).unwrap();
    let pt = decrypt_data(&KEY, &IV, &ct).unwrap();
    assert_eq!(pt, plaintext);
}

#[test]
fn encrypt_matches_known_vector() {
    // Test vector for AES-128-CBC with PKCS#7 padding.
    let plaintext = *b"hello world! this is my plaintext.";
    let expected: [u8; 48] = [
        0xc7, 0xfe, 0x24, 0x7e, 0xf9, 0x7b, 0x21, 0xf0, 0x7c, 0xbd, 0xd2, 0x6c, 0xb5, 0xd3,
        0x46, 0xbf, 0xd2, 0x78, 0x67, 0xcb, 0x00, 0xd9, 0x48, 0x67, 0x23, 0xe1, 0x59, 0x97,
        0x8f, 0xb9, 0xa5, 0xf9, 0x14, 0xcf, 0xb2, 0x28, 0xa7, 0x10, 0xde, 0x41, 0x71, 0xe3,
        0x96, 0xe7, 0xb6, 0xcf, 0x85, 0x9e,
    ];
    let ct = encrypt_data(&KEY, &IV, &plaintext).unwrap();
    assert_eq!(ct, expected);
}

#[test]
fn ciphertext_is_padded_to_block_size() {
    let ct = encrypt_data(&KEY, &IV, b"").unwrap();
    assert_eq!(ct.len(), 16);
    let ct = encrypt_data(&KEY, &IV, &[0u8; 16]).unwrap();
    assert_eq!(ct.len(), 32);
    let ct = encrypt_data(&KEY, &IV, &[0u8; 15]).unwrap();
    assert_eq!(ct.len(), 16);
}

#[test]
fn bad_key_or_iv_length_is_rejected() {
    assert!(encrypt_data(&[0u8; 15], &IV, b"x").is_none());
    assert!(encrypt_data(&KEY, &[0u8; 17], b"x").is_none());
    assert!(encrypt_data(&[], &[], b"x").is_none());
    assert!(decrypt_data(&[0u8; 15], &IV, b"x").is_none());
}

#[test]
fn decrypt_rejects_garbage() {
    assert!(decrypt_data(&KEY, &IV, b"not a block").is_none());
}

#[test]
fn wrong_key_does_not_round_trip() {
    let ct = encrypt_data(&KEY, &IV, b"secret payload").unwrap();
    let other_key = [0x43u8; 16];
    let wrong = decrypt_data(&other_key, &IV, &ct);
    match wrong {
        Some(pt) => assert_ne!(pt, b"secret payload"),
        None => {},
    }
}

#[test]
fn base64_standard_alphabet_with_padding() {
    assert_eq!(base64_encode(b"hello world~"), "aGVsbG8gd29ybGR+");
    assert_eq!(base64_encode(b""), "");
    assert_eq!(base64_encode(b"f"), "Zg==");
    assert_eq!(base64_encode(b"fo"), "Zm8=");
    assert_eq!(base64_encode(b"foo"), "Zm9v");
    assert_eq!(base64_encode(&[0xfb, 0xff]), "+/8=");
}

#[test]
fn percent_encoding_escapes_non_alphanumerics_uppercase() {
    assert_eq!(percent_encode_form(b"foo bar?"), "foo%20bar%3F");
    assert_eq!(percent_encode_form(b"abc123XYZ"), "abc123XYZ");
    assert_eq!(percent_encode_form(b"+/="), "%2B%2F%3D");
    assert_eq!(percent_encode_form(&[0x00, 0xff]), "%00%FF");
}
