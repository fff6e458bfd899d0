use password_cracking::cracker::{fill_batch, resolve_thread_count, CrackerEngine};
use password_cracking::formats::archive::{ZipCracker, ZipEntryProbe};
use password_cracking::formats::pdf::PdfCracker;
use password_cracking::formats::zip_crypto::ZipCryptoKeys;
use password_cracking::formats::DocumentCracker;
use password_cracking::generator::brute_force::BruteForceGenerator;
use password_cracking::generator::dictionary::DictionaryGenerator;
use password_cracking::PasswordGenerator;

/// Build the probe of an entry encrypted with `password`, whose decrypted
/// check byte matches a stored CRC-32 of `0xAB00_0000`.
fn probe_for(password: &[u8]) -> ZipEntryProbe {
    let plain: [u8; 12] = [7, 7, 7, 7, 7, 7, 7, 7, 7, 7, 7, 0xAB];
    let mut keys = ZipCryptoKeys::new();
    for b in password {
        keys.update(*b);
    }
    let mut header = Vec::new();
    for p in plain.iter() {
        let c = *p ^ keys.stream_byte();
        keys.update(*p);
        header.push(c);
    }
    ZipEntryProbe {
        encrypted_header: header,
        crc32: 0xAB00_0000,
        last_mod_time: 0,
        flags: 0,
    }
}

#[test]
fn test_end_to_end_brute_force_success() {
    // The keyspace "ab" up to length 2 covers the real password "ab".
    let target = ZipCracker::new("a.zip".to_string(), probe_for(b"ab"));
    let generator = BruteForceGenerator::new("ab".to_string(), 1, 2).unwrap();
    let total = generator.total_combinations().unwrap();
    let mut engine = CrackerEngine::new(target, generator, Some(2), None);
    let outcome = engine.crack();
    let found = outcome.password.expect("the covered password must be found");
    // The header probe accepts whatever it finds first; it must really pass.
    assert_eq!(
        engine.document.verify_password(&found),
        Ok(true)
    );
    assert_eq!(found, "ab");
    assert!(outcome.attempts <= total);
    assert_eq!(outcome.attempts, 4); // "a", "b", "aa", "ab"
}

#[test]
fn test_end_to_end_brute_force_exhaustion() {
    // The keyspace "ab" up to length 2 excludes the real password "zzz":
    // the search ends empty-handed after exactly every combination.
    let target = ZipCracker::new("a.zip".to_string(), probe_for(b"zzz"));
    let generator = BruteForceGenerator::new("ab".to_string(), 1, 2).unwrap();
    let total = generator.total_combinations().unwrap();
    let mut engine = CrackerEngine::new(target, generator, Some(1), None);
    let outcome = engine.crack();
    assert_eq!(outcome.password, None);
    assert_eq!(outcome.attempts, total);
    assert_eq!(outcome.attempts, 6);
}

#[test]
fn test_dictionary_search_never_accepts_pdf_stub() {
    let target = PdfCracker::new(
        "doc.pdf".to_string(),
        b"%PDF-1.4\n/Encrypt 123 0 R\n".to_vec(),
    )
    .unwrap();
    let generator =
        DictionaryGenerator::new(vec!["one".to_string(), "two".to_string()]).unwrap();
    let mut engine = CrackerEngine::new(target, generator, None, Some("balanced"));
    assert!(engine.thread_count >= 1);
    let outcome = engine.crack();
    assert_eq!(outcome.password, None);
    assert_eq!(outcome.attempts, 2);
}

#[test]
fn test_fill_batch_draining() {
    let mut generator = BruteForceGenerator::new("ab".to_string(), 1, 1).unwrap();
    let batch = fill_batch(&mut generator, 500);
    assert_eq!(batch, vec!["a".to_string(), "b".to_string()]);
    let empty = fill_batch(&mut generator, 500);
    assert!(empty.is_empty());
}

#[test]
fn test_resolve_thread_count() {
    assert_eq!(resolve_thread_count(Some(4), None, 8, 4), 4);
    assert_eq!(resolve_thread_count(None, Some("balanced"), 8, 4), 3);
    assert_eq!(resolve_thread_count(None, Some("balanced"), 8, 1), 1);
    assert_eq!(resolve_thread_count(None, Some("aggressive"), 8, 4), 8);
    assert_eq!(resolve_thread_count(None, None, 8, 4), 8);
}
