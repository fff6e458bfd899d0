use vstd::prelude::*;
use vstd::string::StringExecFns;
use vstd::string::StringSliceAdditionalSpecFns;
use crate::errors::CrackError;
use crate::formats::DocumentCracker;
use crate::formats::zip_crypto;

verus! {

/// Everything the stream cipher probe needs to know about one traditionally
/// encrypted ZIP entry: its 12-byte encryption header and the stored fields
/// the decrypted check byte is held against.
pub struct ZipEntryProbe {
    pub encrypted_header: Vec<u8>,
    pub crc32: u32,
    pub last_mod_time: u16,
    pub flags: u16,
}

/// Verification target for a traditionally encrypted ZIP archive. The entry
/// probe is extracted from the archive once, up front; checking a candidate
/// is then a pure stream cipher computation.
pub struct ZipCracker {
    pub file_path: String,
    pub probe: ZipEntryProbe,
}

impl ZipCracker {
    /// Wrap an already-extracted entry probe of the archive at `file_path`.
    pub fn new(file_path: String, probe: ZipEntryProbe) -> (r: ZipCracker)
        ensures
            r.file_path == file_path,
            r.probe == probe,
    {
        ZipCracker { file_path, probe }
    }
}

impl DocumentCracker for ZipCracker {
    open spec fn accepts(&self, password: Seq<char>) -> bool {
        zip_crypto::spec_traditional_match(
            self.probe.encrypted_header@,
            vstd::utf8::encode_utf8(password),
            self.probe.crc32,
            self.probe.last_mod_time,
            self.probe.flags,
        )
    }

    open spec fn info(&self) -> Seq<char> {
        "ZIP Archive: "@ + self.file_path@
    }

    open spec fn format_tag(&self) -> Seq<char> {
        "ZIP"@
    }

    fn verify_password(&self, password: &str) -> (r: Result<bool, CrackError>) {
        zip_crypto::verify_traditional_password(
            self.probe.encrypted_header.as_slice(),
            password,
            self.probe.crc32,
            self.probe.last_mod_time,
            self.probe.flags,
        )
    }

    fn get_info(&self) -> (r: String) {
        let mut s = String::from_str("ZIP Archive: ");
        s.append(self.file_path.as_str());
        s
    }

    fn get_type(&self) -> (r: &'static str) {
        "ZIP"
    }
}

/// Stand-in for RAR archives: recognised, never constructed successfully.
pub struct RarCracker {
    pub file_path: String,
}

impl RarCracker {
    /// RAR archives are not handled; construction always fails.
    pub fn new(file_path: String) -> (r: Result<RarCracker, CrackError>)
        ensures
            r == Err::<RarCracker, CrackError>(CrackError::RarUnsupported),
    {
        let _ = file_path;
        Err(CrackError::RarUnsupported)
    }
}

impl DocumentCracker for RarCracker {
    open spec fn accepts(&self, password: Seq<char>) -> bool {
        false
    }

    open spec fn info(&self) -> Seq<char> {
        "RAR Archive: "@ + self.file_path@
    }

    open spec fn format_tag(&self) -> Seq<char> {
        "RAR"@
    }

    fn verify_password(&self, password: &str) -> (r: Result<bool, CrackError>) {
        Err(CrackError::RarUnsupported)
    }

    fn get_info(&self) -> (r: String) {
        let mut s = String::from_str("RAR Archive: ");
        s.append(self.file_path.as_str());
        s
    }

    fn get_type(&self) -> (r: &'static str) {
        "RAR"
    }
}

} // verus!
