use stander_service::encryption::{
    decode_base64, encode_base64, generate_checksum, generate_random_string, generate_token,
    hash_password, verify_checksum, verify_password, xor_decrypt, xor_encrypt,
};

#[test]
fn test_password_hashing() {
    let password = "test_password";
    let hash = hash_password(password);
    assert!(verify_password(password, &hash));
    assert!(!verify_password("wrong_password", &hash));
}

#[test]
fn test_random_string_generation() {
    let token1 = generate_random_string(16);
    let token2 = generate_random_string(16);
    assert_eq!(token1.len(), 16);
    assert_eq!(token2.len(), 16);
    assert_ne!(token1, token2);
}

#[test]
fn test_base64_encoding() {
    let data = b"Hello, World!";
    let encoded = encode_base64(data);
    let decoded = decode_base64(&encoded).unwrap();
    assert_eq!(data, decoded.as_slice());
}

#[test]
fn test_xor_encryption() {
    let data = b"Secret message";
    let key = b"key123";
    let encrypted = xor_encrypt(data, key);
    let decrypted = xor_decrypt(&encrypted, key);
    assert_eq!(data, decrypted.as_slice());
}

#[test]
fn test_checksum() {
    let data = b"Important data";
    let checksum = generate_checksum(data);
    assert!(verify_checksum(data, &checksum));
    let modified_data = b"Modified data";
    assert!(!verify_checksum(modified_data, &checksum));
}

#[test]
fn checksum_of_empty_input_is_the_known_digest() {
    assert_eq!(
        generate_checksum(b""),
        "e3b0c44298fc1c149afbf4c8996fb92427ae41e4649b934ca495991b7852b855"
    );
    assert_eq!(
        hash_password("abc"),
        "ba7816bf8f01cfea414140de5dae2223b00361a396177a9cb410ff61f20015ad"
    );
}

#[test]
fn xor_with_known_bytes() {
    assert_eq!(xor_encrypt(&[0x0f, 0xf0, 0xff], &[0xff]), vec![0xf0, 0x0f, 0x00]);
    assert_eq!(xor_encrypt(&[1, 2, 3], &[1, 2]), vec![0, 0, 2]);
    assert_eq!(xor_encrypt(&[1, 2, 3], &[]), Vec::<u8>::new());
    assert_eq!(xor_encrypt(&[], &[7]), Vec::<u8>::new());
}

#[test]
fn tokens_are_alphanumeric_of_fixed_length() {
    let token = generate_token();
    assert_eq!(token.len(), 32);
    assert!(token.chars().all(|c| c.is_ascii_alphanumeric()));
    assert_eq!(generate_random_string(0), "");
}

#[test]
fn base64_known_text_and_bad_input() {
    assert_eq!(encode_base64(b"Man"), "TWFu");
    assert_eq!(encode_base64(b""), "");
    assert!(decode_base64("not base64!").is_err());
}
