use vstd::prelude::*;
use vstd::string::StringSliceAdditionalSpecFns;
use crate::errors::CrackError;

verus! {

/// ZIP encryption kinds, told apart by an entry's general purpose bit flag
/// and compression method.
#[derive(Debug, Clone, Copy, PartialEq, Eq, Structural)]
pub enum ZipEncryptionType {
    Unencrypted,
    /// Legacy PKZIP stream cipher.
    Traditional,
    Aes128,
    Aes192,
    Aes256,
}

/// Number of bytes in the encryption header that precedes an entry's data.
pub const DECRYPT_HEADER_SIZE: usize = 12;

/// Seed constants for the three key registers.
pub const ZIP_CRYPTO_KEY_0: u32 = 0x12345678;
pub const ZIP_CRYPTO_KEY_1: u32 = 0x23456789;
pub const ZIP_CRYPTO_KEY_2: u32 = 0x34567890;

/// Reflected CRC-32 polynomial.
pub const CRC32_POLY: u32 = 0xEDB88320;

/// Multiplier of the second key register's linear congruential step.
pub const KEY1_MULTIPLIER: u32 = 134775813;

/// One bit round of the reflected CRC-32: shift right, folding the dropped
/// bit back in through the polynomial.
pub open spec fn spec_crc32_round(c: u32) -> u32 {
    if c & 1 == 1 {
        (c >> 1) ^ CRC32_POLY
    } else {
        c >> 1
    }
}

pub open spec fn spec_crc32_rounds(c: u32, n: nat) -> u32
    decreases n,
{
    if n == 0 {
        c
    } else {
        spec_crc32_round(spec_crc32_rounds(c, (n - 1) as nat))
    }
}

/// Folding one byte into a running CRC-32 equals eight bit rounds on the
/// byte XORed into the low bits; this matches the classic 256-entry table
/// formulation entry for entry.
pub open spec fn spec_crc32_update(crc: u32, byte: u8) -> u32 {
    spec_crc32_rounds(crc ^ (byte as u32), 8)
}

/// Update a running CRC-32 with a single byte.
pub fn crc32_update(crc: u32, byte: u8) -> (r: u32)
    ensures
        r == spec_crc32_update(crc, byte),
{
    let mut c: u32 = crc ^ (byte as u32);
    let mut i: usize = 0;
    while i < 8
        invariant
            i <= 8,
            c == spec_crc32_rounds(crc ^ (byte as u32), i as nat),
        decreases 8 - i,
    {
        if c & 1 == 1 {
            c = (c >> 1) ^ CRC32_POLY;
        } else {
            c = c >> 1;
        }
        i = i + 1;
    }
    c
}

/// State of the traditional PKZIP stream cipher: three 32-bit registers,
/// freshly re-seeded for every password attempt.
#[derive(Debug, Clone, Copy, PartialEq, Eq, Structural)]
pub struct ZipCryptoKeys {
    pub key0: u32,
    pub key1: u32,
    pub key2: u32,
}

impl ZipCryptoKeys {
    pub open spec fn spec_new() -> ZipCryptoKeys {
        ZipCryptoKeys { key0: ZIP_CRYPTO_KEY_0, key1: ZIP_CRYPTO_KEY_1, key2: ZIP_CRYPTO_KEY_2 }
    }

    /// The key schedule step for one consumed plaintext byte.
    #[verifier::opaque]
    pub open spec fn spec_update(self, byte: u8) -> ZipCryptoKeys {
        let k0 = spec_crc32_update(self.key0, byte);
        let k1 = self.key1.wrapping_add(k0 & 0xff).wrapping_mul(KEY1_MULTIPLIER).wrapping_add(1);
        let k2 = spec_crc32_update(self.key2, (k1 >> 24) as u8);
        ZipCryptoKeys { key0: k0, key1: k1, key2: k2 }
    }

    /// The cipher's next key stream byte, a function of the third register.
    #[verifier::opaque]
    pub open spec fn spec_stream_byte(self) -> u8 {
        let temp = (self.key2 | 2) as u16;
        (temp.wrapping_mul(temp ^ 1) >> 8) as u8
    }

    /// The plaintext byte recovered from one cipher byte.
    pub open spec fn spec_plain_byte(self, cipher_byte: u8) -> u8 {
        cipher_byte ^ self.spec_stream_byte()
    }

    /// The state after decrypting one cipher byte: the schedule consumes the
    /// recovered plaintext byte, never the cipher byte.
    pub open spec fn spec_after_decrypt(self, cipher_byte: u8) -> ZipCryptoKeys {
        self.spec_update(self.spec_plain_byte(cipher_byte))
    }

    /// Fresh register state seeded from the three magic constants.
    pub fn new() -> (r: ZipCryptoKeys)
        ensures
            r == ZipCryptoKeys::spec_new(),
    {
        ZipCryptoKeys { key0: ZIP_CRYPTO_KEY_0, key1: ZIP_CRYPTO_KEY_1, key2: ZIP_CRYPTO_KEY_2 }
    }

    /// Consume one plaintext byte into the key schedule.
    pub fn update(&mut self, byte: u8)
        ensures
            *final(self) == (*old(self)).spec_update(byte),
    {
        proof {
            reveal(ZipCryptoKeys::spec_update);
        }
        self.key0 = crc32_update(self.key0, byte);
        self.key1 = self.key1.wrapping_add(self.key0 & 0xff);
        self.key1 = self.key1.wrapping_mul(KEY1_MULTIPLIER).wrapping_add(1);
        self.key2 = crc32_update(self.key2, (self.key1 >> 24) as u8);
    }

    /// Produce the next key stream byte; the registers are left unchanged.
    pub fn stream_byte(&mut self) -> (r: u8)
        ensures
            *final(self) == *old(self),
            r == (*old(self)).spec_stream_byte(),
    {
        proof {
            reveal(ZipCryptoKeys::spec_stream_byte);
        }
        let temp: u16 = #[verifier::truncate] ((self.key2 | 2) as u16);
        (temp.wrapping_mul(temp ^ 1) >> 8) as u8
    }

    /// Decrypt one byte and feed the recovered plaintext into the schedule.
    pub fn decrypt_byte(&mut self, cipher_byte: u8) -> (r: u8)
        ensures
            r == (*old(self)).spec_plain_byte(cipher_byte),
            *final(self) == (*old(self)).spec_after_decrypt(cipher_byte),
    {
        let plain_byte = cipher_byte ^ self.stream_byte();
        self.update(plain_byte);
        plain_byte
    }
}

/// Register state after running the key schedule over a whole password.
pub open spec fn spec_keys_after(password: Seq<u8>) -> ZipCryptoKeys
    decreases password.len(),
{
    if password.len() == 0 {
        ZipCryptoKeys::spec_new()
    } else {
        spec_keys_after(password.drop_last()).spec_update(password.last())
    }
}

/// Register state after decrypting a cipher byte sequence starting from `k`.
pub open spec fn spec_keys_after_decrypt(k: ZipCryptoKeys, cipher: Seq<u8>) -> ZipCryptoKeys
    decreases cipher.len(),
{
    if cipher.len() == 0 {
        k
    } else {
        spec_keys_after_decrypt(k, cipher.drop_last()).spec_after_decrypt(cipher.last())
    }
}

/// The plaintext recovered by decrypting a cipher byte sequence from `k`.
pub open spec fn spec_decrypted(k: ZipCryptoKeys, cipher: Seq<u8>) -> Seq<u8>
    decreases cipher.len(),
{
    if cipher.len() == 0 {
        Seq::empty()
    } else {
        spec_decrypted(k, cipher.drop_last()).push(
            spec_keys_after_decrypt(k, cipher.drop_last()).spec_plain_byte(cipher.last()),
        )
    }
}

/// The final (12th) decrypted byte of an entry's encryption header, probed
/// with the schedule freshly seeded from `password`.
pub open spec fn spec_check_byte(header: Seq<u8>, password: Seq<u8>) -> u8 {
    spec_decrypted(spec_keys_after(password), header.take(DECRYPT_HEADER_SIZE as int))[
        DECRYPT_HEADER_SIZE - 1
    ]
}

/// The byte the decrypted check byte must equal: with general purpose flag
/// bit 3 set (streaming mode) the low byte of the stored last-modification
/// time, otherwise the high byte of the stored CRC-32.
pub open spec fn spec_expected_check_byte(crc32: u32, last_mod_time: u16, flags: u16) -> u8 {
    if flags & 0x0008 != 0 {
        (last_mod_time & 0xff) as u8
    } else {
        ((crc32 >> 24) & 0xff) as u8
    }
}

/// Whether a password passes the traditional encryption header probe.
pub open spec fn spec_traditional_match(
    header: Seq<u8>,
    password: Seq<u8>,
    crc32: u32,
    last_mod_time: u16,
    flags: u16,
) -> bool {
    header.len() >= DECRYPT_HEADER_SIZE && spec_check_byte(header, password)
        == spec_expected_check_byte(crc32, last_mod_time, flags)
}

/// Law: consuming any single password byte moves every key register away
/// from its seed constant. (Over longer passwords the registers are permuted
/// further and a register may in principle revisit its seed, so only the
/// first step is stated.)
pub proof fn lemma_single_byte_schedule_changes_keys(b: u8)
    ensures
        ({
            let k = ZipCryptoKeys::spec_new().spec_update(b);
            &&& k.key0 != ZIP_CRYPTO_KEY_0
            &&& k.key1 != ZIP_CRYPTO_KEY_1
            &&& k.key2 != ZIP_CRYPTO_KEY_2
        }),
{
    reveal(ZipCryptoKeys::spec_update);
    let k0 = spec_crc32_update(ZIP_CRYPTO_KEY_0, b);
    assert(spec_crc32_update(ZIP_CRYPTO_KEY_0, b) != ZIP_CRYPTO_KEY_0) by (bit_vector);
    let k1 = ZIP_CRYPTO_KEY_1.wrapping_add(k0 & 0xff).wrapping_mul(KEY1_MULTIPLIER).wrapping_add(
        1,
    );
    assert(ZIP_CRYPTO_KEY_1.wrapping_add(k0 & 0xff).wrapping_mul(KEY1_MULTIPLIER).wrapping_add(1)
        != ZIP_CRYPTO_KEY_1) by (bit_vector);
    let t = (k1 >> 24) as u8;
    assert(spec_crc32_update(ZIP_CRYPTO_KEY_2, t) != ZIP_CRYPTO_KEY_2) by (bit_vector);
}

/// Classify an entry's encryption from its general purpose flags and
/// compression method.
pub open spec fn spec_encryption_type(flags: u16, compression_method: u16) -> ZipEncryptionType {
    if flags & 0x0001 == 0 {
        ZipEncryptionType::Unencrypted
    } else if compression_method == 99 {
        ZipEncryptionType::Aes256
    } else {
        ZipEncryptionType::Traditional
    }
}

/// Detect the ZIP encryption type from the general purpose bit flag; AES
/// entries use compression method 99, and the strength recorded in the extra
/// field is not examined, so AES-256 is reported for all of them.
pub fn detect_encryption_type(flags: u16, compression_method: u16) -> (r: ZipEncryptionType)
    ensures
        r == spec_encryption_type(flags, compression_method),
{
    if flags & 0x0001 == 0 {
        return ZipEncryptionType::Unencrypted;
    }
    if compression_method == 99 {
        return ZipEncryptionType::Aes256;
    }
    ZipEncryptionType::Traditional
}

/// Probe a candidate password against an entry's 12-byte encryption header.
/// A match is necessary but not sufficient: about 1 in 256 wrong passwords
/// also passes, so callers wanting certainty must validate decrypted data.
#[verifier::rlimit(100)]
pub fn verify_traditional_password(
    encrypted_header: &[u8],
    password: &str,
    crc32: u32,
    last_mod_time: u16,
    flags: u16,
) -> (r: Result<bool, CrackError>)
    ensures
        r is Ok <==> encrypted_header@.len() >= DECRYPT_HEADER_SIZE,
        r is Err ==> r == Err::<bool, CrackError>(CrackError::HeaderTooShort),
        r matches Ok(b) ==> b == spec_traditional_match(
            encrypted_header@,
            password.spec_bytes(),
            crc32,
            last_mod_time,
            flags,
        ),
{
    if encrypted_header.len() < DECRYPT_HEADER_SIZE {
        return Err(CrackError::HeaderTooShort);
    }
    let pw = password.as_bytes();
    let mut keys = ZipCryptoKeys::new();
    let mut i: usize = 0;
    while i < pw.len()
        invariant
            i <= pw@.len(),
            keys == spec_keys_after(pw@.take(i as int)),
        decreases pw@.len() - i,
    {
        keys.update(pw[i]);
        proof {
            assert(pw@.take(i + 1).drop_last() =~= pw@.take(i as int));
        }
        i = i + 1;
    }
    proof {
        assert(pw@.take(pw@.len() as int) =~= pw@);
    }
    let ghost seeded = keys;
    let mut decrypted: Vec<u8> = Vec::new();
    let mut j: usize = 0;
    while j < DECRYPT_HEADER_SIZE
        invariant
            j <= DECRYPT_HEADER_SIZE,
            encrypted_header@.len() >= DECRYPT_HEADER_SIZE,
            keys == spec_keys_after_decrypt(seeded, encrypted_header@.take(j as int)),
            decrypted@ == spec_decrypted(seeded, encrypted_header@.take(j as int)),
            decrypted@.len() == j,
        decreases DECRYPT_HEADER_SIZE - j,
    {
        let p = keys.decrypt_byte(encrypted_header[j]);
        decrypted.push(p);
        proof {
            assert(encrypted_header@.take(j + 1).drop_last() =~= encrypted_header@.take(j as int));
        }
        j = j + 1;
    }
    let check_byte = decrypted[DECRYPT_HEADER_SIZE - 1];
    if flags & 0x0008 != 0 {
        Ok(check_byte == (last_mod_time & 0xff) as u8)
    } else {
        Ok(check_byte == ((crc32 >> 24) & 0xff) as u8)
    }
}

/// How many bytes past the encryption header a bounded data probe reads: at
/// most 1024, at most what the entry claims to hold, at most what is there.
pub open spec fn spec_data_probe_len(available: nat, encrypted_size: u64) -> nat {
    let claimed: nat = if encrypted_size >= DECRYPT_HEADER_SIZE {
        (encrypted_size - DECRYPT_HEADER_SIZE) as nat
    } else {
        0
    };
    let cap: nat = if claimed >= 1024 {
        1024
    } else {
        claimed
    };
    if cap >= available {
        available
    } else {
        cap
    }
}

/// Decrypt a bounded prefix of an entry's encrypted stream, as a cheap
/// plausibility probe after the header check. `data` holds the encrypted
/// stream, 12-byte header included. The decrypted bytes are not further
/// validated against `_expected_crc`: a full CRC check would have to decrypt
/// the entire entry, and the search treats the header probe as the decisive
/// test, so this reports whether any data at all was there to decrypt.
pub fn verify_data_crc(
    data: &[u8],
    password: &str,
    _expected_crc: u32,
    encrypted_size: u64,
) -> (r: Result<bool, CrackError>)
    ensures
        r is Ok <==> data@.len() >= DECRYPT_HEADER_SIZE,
        r is Err ==> r == Err::<bool, CrackError>(CrackError::HeaderTooShort),
        data@.len() >= DECRYPT_HEADER_SIZE ==> r == Ok::<bool, CrackError>(
            spec_data_probe_len((data@.len() - DECRYPT_HEADER_SIZE) as nat, encrypted_size) != 0,
        ),
{
    if data.len() < DECRYPT_HEADER_SIZE {
        return Err(CrackError::HeaderTooShort);
    }
    let pw = password.as_bytes();
    let mut keys = ZipCryptoKeys::new();
    let mut i: usize = 0;
    while i < pw.len()
        invariant
            i <= pw@.len(),
        decreases pw@.len() - i,
    {
        keys.update(pw[i]);
        i = i + 1;
    }
    let mut j: usize = 0;
    while j < DECRYPT_HEADER_SIZE
        invariant
            j <= DECRYPT_HEADER_SIZE,
            data@.len() >= DECRYPT_HEADER_SIZE,
        decreases DECRYPT_HEADER_SIZE - j,
    {
        let _ = keys.decrypt_byte(data[j]);
        j = j + 1;
    }
    let available = data.len() - DECRYPT_HEADER_SIZE;
    let claimed_u64 = encrypted_size.saturating_sub(DECRYPT_HEADER_SIZE as u64);
    let cap: usize = if claimed_u64 >= 1024 {
        1024
    } else {
        claimed_u64 as usize
    };
    let bytes_to_read: usize = if cap >= available {
        available
    } else {
        cap
    };
    if bytes_to_read == 0 {
        return Ok(false);
    }
    let mut m: usize = 0;
    while m < bytes_to_read
        invariant
            bytes_to_read <= data@.len() - DECRYPT_HEADER_SIZE,
            DECRYPT_HEADER_SIZE + bytes_to_read <= usize::MAX,
            m <= bytes_to_read,
        decreases bytes_to_read - m,
    {
        let _ = keys.decrypt_byte(data[DECRYPT_HEADER_SIZE + m]);
        m = m + 1;
    }
    Ok(true)
}

} // verus!
