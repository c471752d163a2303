use base64::Engine;
use zeroclaw::channels::weixin::crypto::{
    decrypt, decrypt_cdn_url, detect_mime_from_magic, encrypt, md5_hex, mime_to_ext,
    remove_padding, AesKey, CdnUrlError, CryptoError,
};

#[test]
fn test_aes_encrypt_decrypt_roundtrip() {
    let key = [0u8; 16];
    let plaintext = b"Hello, WeChat!";
    let ciphertext = encrypt(&key, plaintext).unwrap();
    let decrypted = decrypt(&key, &ciphertext).unwrap();
    assert_eq!(&decrypted, plaintext);
}

#[test]
fn test_aes_random_key() {
    let k1 = AesKey::random();
    let k2 = AesKey::random();
    assert_ne!(k1.as_bytes(), k2.as_bytes());
    // Roundtrip
    let b64 = k1.to_base64_string();
    let k3 = AesKey::from_base64(&b64).unwrap();
    assert_eq!(k1.as_bytes(), k3.as_bytes());
}

#[test]
fn test_md5_hex() {
    assert_eq!(md5_hex(b"hello"), "5d41402abc4b2a76b9719d911017c592");
    assert_eq!(md5_hex(b""), "d41d8cd98f00b204e9800998ecf8427e");
}

#[test]
fn test_detect_mime_from_magic() {
    assert_eq!(detect_mime_from_magic(&[0xFF, 0xD8, 0xFF, 0xE0]), "image/jpeg");
    assert_eq!(
        detect_mime_from_magic(&[0x89, 0x50, 0x4E, 0x47, 0x0D, 0x0A, 0x1A, 0x0A]),
        "image/png"
    );
    assert_eq!(detect_mime_from_magic(&[0x47, 0x49, 0x46, 0x38, 0x39, 0x61]), "image/gif");
    assert_eq!(detect_mime_from_magic(&[0x42, 0x4D, 0x00, 0x00]), "image/bmp");
    assert_eq!(
        detect_mime_from_magic(b"RIFF\x00\x00\x00\x00WAVE"),
        "audio/wav"
    );
    assert_eq!(detect_mime_from_magic(&[0x49, 0x44, 0x33, 0x04]), "audio/mpeg");
    assert_eq!(detect_mime_from_magic(&[0xFF, 0xFB, 0x90, 0x00]), "audio/mpeg");
    assert_eq!(detect_mime_from_magic(&[0x4F, 0x67, 0x67, 0x53]), "audio/ogg");
    assert_eq!(detect_mime_from_magic(&[0x02, 0x01, 0x01, 0x00]), "audio/silk");
    assert_eq!(detect_mime_from_magic(&[0x99, 0x99, 0x99, 0x99]), "application/octet-stream");
}

#[test]
fn key_of_sixteen_bytes_is_read() {
    let key = AesKey::from_base64("QUFBQUFBQUFBQUFBQUFBQQ==").unwrap();
    assert_eq!(key.as_bytes(), &[b'A'; 16]);
    let key = AesKey::from_base64("  QUFBQUFBQUFBQUFBQUFBQQ==\n").unwrap();
    assert_eq!(key.as_bytes(), &[b'A'; 16]);
    assert_eq!(key.to_base64_string(), "QUFBQUFBQUFBQUFBQUFBQQ==");
}

#[test]
fn key_of_another_length_is_refused() {
    assert_eq!(
        AesKey::from_base64("QUFBQUFBQUFBQUFB").unwrap_err(),
        CryptoError::KeyLength(12)
    );
    assert_eq!(AesKey::from_slice(&[1, 2, 3]).unwrap_err(), CryptoError::KeyLength(3));
    assert_eq!(AesKey::from_slice(&[7; 16]).unwrap().as_bytes(), &[7; 16]);
}

#[test]
fn key_that_is_no_base64_is_refused() {
    assert_eq!(AesKey::from_base64("not base64!").unwrap_err(), CryptoError::NotBase64);
    assert_eq!(AesKey::from_base64("QUFB====").unwrap_err(), CryptoError::NotBase64);
}

/// The example vector of FIPS 197 for AES-128.
#[test]
fn one_block_is_encrypted_as_published() {
    let key: [u8; 16] = [
        0x00, 0x01, 0x02, 0x03, 0x04, 0x05, 0x06, 0x07, 0x08, 0x09, 0x0a, 0x0b, 0x0c, 0x0d, 0x0e,
        0x0f,
    ];
    let plaintext: [u8; 16] = [
        0x00, 0x11, 0x22, 0x33, 0x44, 0x55, 0x66, 0x77, 0x88, 0x99, 0xaa, 0xbb, 0xcc, 0xdd, 0xee,
        0xff,
    ];
    let ciphertext: [u8; 16] = [
        0x69, 0xc4, 0xe0, 0xd8, 0x6a, 0x7b, 0x04, 0x30, 0xd8, 0xcd, 0xb7, 0x80, 0x70, 0xb4, 0xc5,
        0x5a,
    ];
    assert_eq!(encrypt(&key, &plaintext).unwrap(), ciphertext);
    assert_eq!(decrypt(&key, &ciphertext).unwrap(), plaintext);
}

#[test]
fn equal_blocks_are_encrypted_alike() {
    let key = [9u8; 16];
    let ciphertext = encrypt(&key, &[5u8; 32]).unwrap();
    assert_eq!(ciphertext.len(), 32);
    assert_eq!(ciphertext[..16], ciphertext[16..]);
}

#[test]
fn sizes_are_filled_up_to_blocks() {
    let key = [1u8; 16];
    for (len, padded) in [(0usize, 0usize), (1, 16), (15, 16), (16, 16), (17, 32), (33, 48)] {
        let plaintext = vec![0xAAu8; len];
        let ciphertext = encrypt(&key, &plaintext).unwrap();
        assert_eq!(ciphertext.len(), padded);
        assert_eq!(decrypt(&key, &ciphertext).unwrap(), plaintext);
    }
}

#[test]
fn zeros_at_the_end_are_lost() {
    let key = [3u8; 16];
    let ciphertext = encrypt(&key, &[1, 2, 0, 0]).unwrap();
    assert_eq!(decrypt(&key, &ciphertext).unwrap(), vec![1, 2]);
    assert_eq!(decrypt(&key, &[]).unwrap(), Vec::<u8>::new());
    assert_eq!(remove_padding(vec![0, 1, 0, 2, 0, 0]), vec![0, 1, 0, 2]);
    assert_eq!(remove_padding(vec![0, 0]), Vec::<u8>::new());
}

#[test]
fn broken_blocks_are_refused() {
    assert_eq!(
        decrypt(&[0; 16], &[0; 15]).unwrap_err(),
        CryptoError::CiphertextLength(15)
    );
}

fn base64_of(bytes: &[u8]) -> String {
    base64::engine::general_purpose::STANDARD.encode(bytes)
}

#[test]
fn cdn_address_is_read() {
    let key = AesKey::random();
    let sealed = encrypt(key.as_bytes(), b"{\"url\":\"https://cdn.example/x.jpg\"}").unwrap();
    let url = decrypt_cdn_url(&base64_of(&sealed), &key.to_base64_string()).unwrap();
    assert_eq!(url, "https://cdn.example/x.jpg");
}

#[test]
fn cdn_address_that_cannot_be_read_is_refused() {
    let key = AesKey::from_slice(&[8; 16]).unwrap();
    let text = key.to_base64_string();
    assert_eq!(
        decrypt_cdn_url("AAAA", "AAAA").unwrap_err(),
        CdnUrlError::Key(CryptoError::KeyLength(3))
    );
    assert_eq!(decrypt_cdn_url("***", &text).unwrap_err(), CdnUrlError::NotBase64);
    assert_eq!(
        decrypt_cdn_url("AAAA", &text).unwrap_err(),
        CdnUrlError::Cipher(CryptoError::CiphertextLength(3))
    );
    let no_json = base64_of(&encrypt(key.as_bytes(), b"hello").unwrap());
    assert_eq!(decrypt_cdn_url(&no_json, &text).unwrap_err(), CdnUrlError::NotJson);
    let no_url = base64_of(&encrypt(key.as_bytes(), b"{\"url\":5}").unwrap());
    assert_eq!(decrypt_cdn_url(&no_url, &text).unwrap_err(), CdnUrlError::MissingUrl);
}

#[test]
fn errors_are_told_in_words() {
    assert_eq!(CryptoError::NotBase64.message(), "base64 decode aes_key");
    assert_eq!(CryptoError::KeyLength(12).message(), "AES-128 key must be 16 bytes, got 12");
    assert_eq!(
        CryptoError::CiphertextLength(5).message(),
        "Ciphertext length must be a multiple of 16 bytes, got 5"
    );
    assert_eq!(CdnUrlError::Key(CryptoError::NotBase64).message(), "parse AES key from base64");
    assert_eq!(CdnUrlError::NotBase64.message(), "base64 decode encrypt_query_param");
    assert_eq!(
        CdnUrlError::Cipher(CryptoError::CiphertextLength(1)).message(),
        "AES-ECB decrypt CDN URL"
    );
    assert_eq!(CdnUrlError::NotJson.message(), "parse decrypted CDN URL JSON");
    assert_eq!(CdnUrlError::MissingUrl.message(), "Missing 'url' field in CDN URL JSON");
}

#[test]
fn extensions_follow_mime_types() {
    assert_eq!(mime_to_ext("image/jpeg"), "jpg");
    assert_eq!(mime_to_ext("image/webp"), "webp");
    assert_eq!(mime_to_ext("audio/silk"), "silk");
    assert_eq!(mime_to_ext("text/plain"), "bin");
    assert_eq!(detect_mime_from_magic(&[]), "application/octet-stream");
    assert_eq!(detect_mime_from_magic(&[5]), "audio/silk");
    assert_eq!(detect_mime_from_magic(&[6]), "application/octet-stream");
}
