use password_cracking::errors::CrackError;
use password_cracking::formats::archive::{RarCracker, ZipCracker, ZipEntryProbe};
use password_cracking::formats::office::OfficeCracker;
use password_cracking::formats::pdf::PdfCracker;
use password_cracking::formats::{create_cracker, DocumentCracker, DocumentType};
use sha2::{Digest, Sha256};

#[test]
fn test_is_encrypted() {
    let encrypted_pdf = b"%PDF-1.4\n/Encrypt 123 0 R\n";
    assert!(PdfCracker::is_encrypted(encrypted_pdf).unwrap());

    let normal_pdf = b"%PDF-1.4\n/Type /Catalog\n";
    assert!(!PdfCracker::is_encrypted(normal_pdf).unwrap());
}

#[test]
fn test_pdf_cracker_construction() {
    let encrypted = PdfCracker::new(
        "doc.pdf".to_string(),
        b"%PDF-1.4\n/Encrypt 123 0 R\n".to_vec(),
    );
    let cracker = encrypted.unwrap();
    assert_eq!(cracker.verify_password("anything"), Ok(false));
    assert_eq!(cracker.get_type(), "PDF");
    assert_eq!(cracker.get_info(), "PDF File: doc.pdf");

    let plain = PdfCracker::new("doc.pdf".to_string(), b"%PDF-1.4\n".to_vec());
    assert!(matches!(plain, Err(CrackError::NotEncrypted)));
}

#[test]
fn test_office_cracker_construction() {
    let cracker = OfficeCracker::new("a.docx".to_string(), Some(vec![1, 2, 3])).unwrap();
    assert_eq!(cracker.verify_password_internal("pw"), Ok(false));
    assert_eq!(cracker.get_type(), "Office");
    assert_eq!(cracker.get_info(), "Office Document: a.docx");
    assert!(matches!(
        OfficeCracker::new("a.docx".to_string(), None),
        Err(CrackError::NotEncrypted)
    ));
}

#[test]
fn test_office_derive_key_matches_reference() {
    // The derived key must equal SHA-256 over salt and password, re-hashed
    // spin-count times, computed here independently.
    let cracker = OfficeCracker::new("a.docx".to_string(), Some(vec![])).unwrap();
    let key = cracker.derive_key("pw");

    let mut hasher = Sha256::new();
    hasher.update(&[0u8; 16]);
    hasher.update(b"pw");
    let mut expected = hasher.finalize().to_vec();
    for _ in 0..100000 {
        let mut hasher = Sha256::new();
        hasher.update(&expected);
        expected = hasher.finalize().to_vec();
    }
    assert_eq!(key, expected);
}

#[test]
fn test_rar_cracker_unsupported() {
    assert!(matches!(
        RarCracker::new("a.rar".to_string()),
        Err(CrackError::RarUnsupported)
    ));
}

#[test]
fn test_zip_cracker_target() {
    let probe = ZipEntryProbe {
        encrypted_header: vec![0u8; 12],
        crc32: 0,
        last_mod_time: 0,
        flags: 0,
    };
    let cracker = ZipCracker::new("a.zip".to_string(), probe);
    assert_eq!(cracker.get_type(), "ZIP");
    assert_eq!(cracker.get_info(), "ZIP Archive: a.zip");
    // A 12-byte header always yields a verdict, never an error.
    assert!(cracker.verify_password("pw").is_ok());
}

#[test]
fn test_create_cracker_dispatch() {
    assert_eq!(create_cracker(Some("pdf")), Ok(DocumentType::Pdf));
    assert_eq!(create_cracker(Some("PDF")), Ok(DocumentType::Pdf));
    assert_eq!(create_cracker(Some("docx")), Ok(DocumentType::Office));
    assert_eq!(create_cracker(Some("XlSx")), Ok(DocumentType::Office));
    assert_eq!(create_cracker(Some("pptx")), Ok(DocumentType::Office));
    assert_eq!(create_cracker(Some("zip")), Ok(DocumentType::Zip));
    assert_eq!(
        create_cracker(Some("exe")),
        Err(CrackError::UnsupportedFileType)
    );
    assert_eq!(create_cracker(None), Err(CrackError::UnknownFileType));
}
