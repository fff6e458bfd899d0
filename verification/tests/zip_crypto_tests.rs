use password_cracking::errors::CrackError;
use password_cracking::formats::zip_crypto::{
    detect_encryption_type, verify_data_crc, verify_traditional_password, ZipCryptoKeys,
    ZipEncryptionType, ZIP_CRYPTO_KEY_0, ZIP_CRYPTO_KEY_1, ZIP_CRYPTO_KEY_2,
};

/// Encrypt 12 plaintext bytes the way a ZIP writer would: seed the keys from
/// the password, XOR each plaintext byte with the stream byte, and feed the
/// plaintext byte back into the schedule.
fn encrypt_header(password: &[u8], plain: &[u8]) -> Vec<u8> {
    let mut keys = ZipCryptoKeys::new();
    for b in password {
        keys.update(*b);
    }
    let mut out = Vec::new();
    for p in plain {
        let c = *p ^ keys.stream_byte();
        keys.update(*p);
        out.push(c);
    }
    out
}

#[test]
fn test_zip_crypto_keys() {
    let mut keys = ZipCryptoKeys::new();

    // Test with known password
    for byte in b"password" {
        keys.update(*byte);
    }

    // Keys should have been updated
    assert_ne!(keys.key0, ZIP_CRYPTO_KEY_0);
    assert_ne!(keys.key1, ZIP_CRYPTO_KEY_1);
    assert_ne!(keys.key2, ZIP_CRYPTO_KEY_2);
}

#[test]
fn test_detect_encryption() {
    // No encryption
    assert_eq!(
        detect_encryption_type(0x0000, 8),
        ZipEncryptionType::Unencrypted
    );

    // Traditional encryption
    assert_eq!(
        detect_encryption_type(0x0001, 8),
        ZipEncryptionType::Traditional
    );

    // AES encryption
    assert_eq!(detect_encryption_type(0x0001, 99), ZipEncryptionType::Aes256);
}

#[test]
fn test_decrypt_round_trip() {
    // Decrypting what encrypt_header produced recovers the plaintext.
    let plain: [u8; 12] = [1, 2, 3, 4, 5, 6, 7, 8, 9, 10, 11, 0xAB];
    let cipher = encrypt_header(b"secret", &plain);
    let mut keys = ZipCryptoKeys::new();
    for b in b"secret" {
        keys.update(*b);
    }
    let decrypted: Vec<u8> = cipher.iter().map(|c| keys.decrypt_byte(*c)).collect();
    assert_eq!(decrypted, plain.to_vec());
}

#[test]
fn test_verify_traditional_password_crc_mode() {
    // The last decrypted header byte is 0xAB; without flag bit 3 it is held
    // against the high byte of the stored CRC-32.
    let plain: [u8; 12] = [9, 9, 9, 9, 9, 9, 9, 9, 9, 9, 9, 0xAB];
    let header = encrypt_header(b"secret", &plain);
    assert_eq!(
        verify_traditional_password(&header, "secret", 0xAB00_0000, 0, 0),
        Ok(true)
    );
    // A stored CRC-32 with another high byte rejects the same password.
    assert_eq!(
        verify_traditional_password(&header, "secret", 0x1200_0000, 0, 0),
        Ok(false)
    );
}

#[test]
fn test_verify_traditional_password_streaming_mode() {
    // With flag bit 3 set the check byte is the low byte of the stored
    // last-modification time instead.
    let plain: [u8; 12] = [0, 0, 0, 0, 0, 0, 0, 0, 0, 0, 0, 0x5C];
    let header = encrypt_header(b"pw", &plain);
    assert_eq!(
        verify_traditional_password(&header, "pw", 0, 0x115C, 0x0008),
        Ok(true)
    );
    assert_eq!(
        verify_traditional_password(&header, "pw", 0, 0x1100, 0x0008),
        Ok(false)
    );
}

#[test]
fn test_verify_traditional_password_short_header() {
    let header = [0u8; 11];
    assert_eq!(
        verify_traditional_password(&header, "pw", 0, 0, 0),
        Err(CrackError::HeaderTooShort)
    );
}

#[test]
fn test_verify_data_crc_bounds() {
    // Too short for the encryption header: an error.
    assert_eq!(
        verify_data_crc(&[0u8; 5], "pw", 0, 100),
        Err(CrackError::HeaderTooShort)
    );
    // Header only, nothing after it: no data was decrypted.
    assert_eq!(verify_data_crc(&[0u8; 12], "pw", 0, 100), Ok(false));
    // An entry that claims only its header holds data: nothing to probe.
    assert_eq!(verify_data_crc(&[0u8; 40], "pw", 0, 12), Ok(false));
    // Data present and claimed: the bounded probe succeeds.
    assert_eq!(verify_data_crc(&[0u8; 40], "pw", 0, 40), Ok(true));
}

#[test]
fn test_error_messages() {
    assert_eq!(
        CrackError::HeaderTooShort.message(),
        "Encrypted header too short"
    );
    assert_eq!(CrackError::EmptyCharset.message(), "Charset cannot be empty");
}
