use pea_2_pea::shared::crypto::{
    decrypt, derive_key_from_password, encrypt, random_block, test_all_crypto_functions,
    CryptoFailure,
};

#[test]
fn derived_key_is_deterministic() {
    let a = derive_key_from_password(b"test_password_123", b"random_salt_data");
    let b = derive_key_from_password(b"test_password_123", b"random_salt_data");
    assert_eq!(a, b);
    assert_ne!(a, [0u8; 32]);
}

#[test]
fn derived_key_depends_on_password_and_salt() {
    let a = derive_key_from_password(b"test_password_123", b"random_salt_data");
    let b = derive_key_from_password(b"wrong_password", b"random_salt_data");
    let c = derive_key_from_password(b"test_password_123", b"another_salt_val");
    assert_ne!(a, b);
    assert_ne!(a, c);
}

#[test]
fn derived_key_known_value() {
    // PBKDF2-HMAC-SHA256, password "password", salt "salt", 10000 rounds.
    let key = derive_key_from_password(b"password", b"salt");
    let expected: [u8; 32] = [
        0x5e, 0xc0, 0x2b, 0x91, 0xa4, 0xb5, 0x9c, 0x6f, 0x59, 0xdd, 0x5f, 0xbe, 0x4c, 0xa6, 0x49,
        0xec, 0xe4, 0xfa, 0x85, 0x68, 0xcd, 0xb8, 0xba, 0x36, 0xcf, 0x41, 0x42, 0x6e, 0x88, 0x05,
        0x52, 0x2b,
    ];
    assert_eq!(key, expected);
}

#[test]
fn encrypt_then_decrypt_gives_data_back() {
    let key = derive_key_from_password(b"test_password_123", b"random_salt_data");
    let iv = b"1234567890123456";
    let data = b"Hello, this is secret data to encrypt and decrypt!";
    let ciphertext = encrypt(&key, iv, data).unwrap();
    assert_ne!(&ciphertext[..], &data[..]);
    let plain = decrypt(&key, iv, &ciphertext).unwrap();
    assert_eq!(&plain[..], &data[..]);
}

#[test]
fn ciphertext_length_is_next_block_boundary() {
    let key = [7u8; 32];
    let iv = [9u8; 16];
    assert_eq!(encrypt(&key, &iv, &[]).unwrap().len(), 16);
    assert_eq!(encrypt(&key, &iv, &[1u8; 15]).unwrap().len(), 16);
    assert_eq!(encrypt(&key, &iv, &[1u8; 16]).unwrap().len(), 32);
    assert_eq!(encrypt(&key, &iv, &[1u8; 50]).unwrap().len(), 64);
}

#[test]
fn wrong_key_does_not_give_data_back() {
    let key = derive_key_from_password(b"test_password_123", b"random_salt_data");
    let wrong = derive_key_from_password(b"wrong_password", b"random_salt_data");
    let iv = b"1234567890123456";
    let data = b"Hello, this is secret data to encrypt and decrypt!";
    let ciphertext = encrypt(&key, iv, data).unwrap();
    match decrypt(&wrong, iv, &ciphertext) {
        Ok(plain) => assert_ne!(&plain[..], &data[..]),
        Err(e) => assert_eq!(e, CryptoFailure::PaddingInvalid),
    }
}

#[test]
fn bad_key_or_iv_length_is_rejected() {
    let key = [1u8; 32];
    let iv = [2u8; 16];
    assert_eq!(encrypt(&key[..31], &iv, b"x"), Err(CryptoFailure::InvalidLength));
    assert_eq!(encrypt(&key, &iv[..15], b"x"), Err(CryptoFailure::InvalidLength));
    assert_eq!(decrypt(&key[..31], &iv, &[0u8; 16]), Err(CryptoFailure::InvalidLength));
    assert_eq!(decrypt(&key, &iv[..15], &[0u8; 16]), Err(CryptoFailure::InvalidLength));
}

#[test]
fn unaligned_or_corrupt_ciphertext_is_rejected() {
    let key = [1u8; 32];
    let iv = [2u8; 16];
    assert_eq!(decrypt(&key, &iv, &[0u8; 17]), Err(CryptoFailure::PaddingInvalid));
    assert_eq!(decrypt(&key, &iv, &[]), Err(CryptoFailure::PaddingInvalid));
    let mut ciphertext = encrypt(&key, &iv, b"0123456789abcdef0123").unwrap();
    ciphertext.truncate(20);
    assert_eq!(decrypt(&key, &iv, &ciphertext), Err(CryptoFailure::PaddingInvalid));
}

#[test]
fn random_blocks_differ() {
    let a = random_block();
    let b = random_block();
    let c = random_block();
    assert!(a != b || b != c);
}

#[test]
fn test_all_crypto_functions_reports_success() {
    let report = test_all_crypto_functions();
    assert!(report.encrypted);
    assert!(report.round_trip);
    assert!(report.wrong_key_rejected);
}
