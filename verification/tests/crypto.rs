use rand::RngCore;
use spacetaxi::crypto::{
    decrypt_chunk, decrypt_file, derive_key_from_password, encrypt_chunk, encrypt_file,
    generate_chunk_nonce, generate_key, generate_nonce, generate_salt, CryptoError, KEY_SIZE,
    NONCE_SIZE, TAG_SIZE,
};

#[test]
fn test_key_generation() {
    let key1 = generate_key();
    let key2 = generate_key();
    assert_ne!(key1, key2);
    assert_eq!(key1.len(), KEY_SIZE);
}

#[test]
fn test_encrypt_decrypt_roundtrip() {
    let key = generate_key();
    let plaintext = b"Hello, spacetaxi!";

    let encrypted = encrypt_file(&key, plaintext).unwrap();
    let decrypted = decrypt_file(&key, &encrypted).unwrap();

    assert_eq!(plaintext.as_slice(), decrypted.as_slice());
}

#[test]
fn test_encrypt_decrypt_large_data() {
    let key = generate_key();
    let plaintext: Vec<u8> = (0..100_000).map(|i| (i % 256) as u8).collect();

    let encrypted = encrypt_file(&key, &plaintext).unwrap();
    let decrypted = decrypt_file(&key, &encrypted).unwrap();

    assert_eq!(plaintext, decrypted);
}

#[test]
fn test_chunked_encryption() {
    let key = generate_key();
    let base_nonce = {
        let mut n = [0u8; NONCE_SIZE];
        rand::thread_rng().fill_bytes(&mut n);
        n
    };

    let chunk1 = b"First chunk of data";
    let chunk2 = b"Second chunk of data";

    let (enc1, _) = encrypt_chunk(&key, chunk1, 0, Some(&base_nonce)).unwrap();
    let (enc2, _) = encrypt_chunk(&key, chunk2, 1, Some(&base_nonce)).unwrap();

    let dec1 = decrypt_chunk(&key, &enc1).unwrap();
    let dec2 = decrypt_chunk(&key, &enc2).unwrap();

    assert_eq!(chunk1.as_slice(), dec1.as_slice());
    assert_eq!(chunk2.as_slice(), dec2.as_slice());
}

#[test]
fn test_password_key_derivation() {
    let password = "my-secret-password";
    let salt = generate_salt();

    let key1 = derive_key_from_password(password, &salt).unwrap();
    let key2 = derive_key_from_password(password, &salt).unwrap();

    assert_eq!(key1, key2);

    // Different salt should produce different key
    let salt2 = generate_salt();
    let key3 = derive_key_from_password(password, &salt2).unwrap();
    assert_ne!(key1, key3);
}

#[test]
fn test_password_encrypt_decrypt() {
    let password = "test-password-123";
    let salt = generate_salt();
    let key = derive_key_from_password(password, &salt).unwrap();

    let plaintext = b"Secret message encrypted with password";
    let encrypted = encrypt_file(&key, plaintext).unwrap();
    let decrypted = decrypt_file(&key, &encrypted).unwrap();

    assert_eq!(plaintext.as_slice(), decrypted.as_slice());
}

#[test]
fn test_wrong_key_fails() {
    let key1 = generate_key();
    let key2 = generate_key();
    let plaintext = b"Some data";

    let encrypted = encrypt_file(&key1, plaintext).unwrap();
    let result = decrypt_file(&key2, &encrypted);

    assert!(result.is_err());
}

#[test]
fn test_tampered_data_fails() {
    let key = generate_key();
    let plaintext = b"Original data";

    let mut encrypted = encrypt_file(&key, plaintext).unwrap();
    // Tamper with the ciphertext
    if let Some(byte) = encrypted.get_mut(NONCE_SIZE + 5) {
        *byte ^= 0xFF;
    }

    let result = decrypt_file(&key, &encrypted);
    assert!(result.is_err());
}

#[test]
fn encrypted_layout_is_nonce_ciphertext_tag() {
    let key = [7u8; KEY_SIZE];
    let base = [9u8; NONCE_SIZE];
    let (enc, nonce) = encrypt_chunk(&key, b"abc", 3, Some(&base)).unwrap();
    assert_eq!(enc.len(), 3 + NONCE_SIZE + TAG_SIZE);
    assert_eq!(&enc[..NONCE_SIZE], &nonce[..]);
    assert_ne!(&enc[NONCE_SIZE..NONCE_SIZE + 3], b"abc");
    assert_eq!(nonce, generate_chunk_nonce(&base, 3));
    // the same key, nonce and plaintext always give the same bytes
    let (again, _) = encrypt_chunk(&key, b"abc", 3, Some(&base)).unwrap();
    assert_eq!(enc, again);
}

#[test]
fn chunk_nonce_xors_index_into_last_eight_bytes() {
    let base = [0u8; NONCE_SIZE];
    let n = generate_chunk_nonce(&base, 0x0102_0304_0506_0708);
    assert_eq!(&n[..16], &[0u8; 16][..]);
    assert_eq!(&n[16..], &[8, 7, 6, 5, 4, 3, 2, 1][..]);
    let base2 = [0xffu8; NONCE_SIZE];
    let m = generate_chunk_nonce(&base2, 1);
    assert_eq!(m[16], 0xfe);
    assert_eq!(m[17], 0xff);
    assert_eq!(generate_chunk_nonce(&base2, 0), base2);
}

#[test]
fn chunk_nonces_of_distinct_indices_differ() {
    let base = generate_nonce();
    let mut seen = std::collections::HashSet::new();
    for i in 0..1000u64 {
        assert!(seen.insert(generate_chunk_nonce(&base, i)));
    }
}

#[test]
fn short_input_is_invalid_data_length() {
    let key = [1u8; KEY_SIZE];
    let r = decrypt_chunk(&key, &[0u8; NONCE_SIZE + TAG_SIZE - 1]);
    assert!(matches!(r, Err(CryptoError::InvalidDataLength)));
    assert_eq!(r.unwrap_err().message(), "invalid data length");
}

#[test]
fn forged_input_is_decryption_failed() {
    let key = [1u8; KEY_SIZE];
    let r = decrypt_chunk(&key, &[0u8; NONCE_SIZE + TAG_SIZE]);
    match r {
        Err(CryptoError::DecryptionFailed(m)) => assert_eq!(m, "aead::Error"),
        other => panic!("unexpected {:?}", other),
    }
}

#[test]
fn empty_plaintext_round_trips() {
    let key = generate_key();
    let enc = encrypt_file(&key, b"").unwrap();
    assert_eq!(enc.len(), NONCE_SIZE + TAG_SIZE);
    assert_eq!(decrypt_file(&key, &enc).unwrap(), Vec::<u8>::new());
}

#[test]
fn short_salt_is_refused() {
    let r = derive_key_from_password("pw", &[0u8; 7]);
    assert!(matches!(r, Err(CryptoError::KeyDerivationFailed(_))));
    let m = r.unwrap_err().message();
    assert!(m.starts_with("key derivation failed: "));
}

#[test]
fn password_key_is_deterministic_per_salt() {
    let salt = [5u8; 16];
    let a = derive_key_from_password("correct horse", &salt).unwrap();
    let b = derive_key_from_password("correct horse", &salt).unwrap();
    let c = derive_key_from_password("correct horsf", &salt).unwrap();
    assert_eq!(a, b);
    assert_ne!(a, c);
}
