use vstd::prelude::*;

verus! {

/// Failures surfaced to callers.
///
/// Construction failures (bad generator parameters, unusable input data,
/// unsupported formats) are fatal and reported through this type; failures
/// while probing one candidate are absorbed into a boolean outcome instead.
#[derive(Debug, Clone, Copy, PartialEq, Eq, Structural)]
pub enum CrackError {
    /// A brute-force charset with no symbols was supplied.
    EmptyCharset,
    /// The minimum candidate length exceeds the maximum.
    MinLengthExceedsMax,
    /// The maximum candidate length exceeds the hard cap of 20.
    MaxLengthTooLarge,
    /// An encrypted entry's header holds fewer than 12 bytes.
    HeaderTooShort,
    /// A wordlist yielded no usable candidate lines.
    EmptyWordlist,
    /// The target file's extension could not be determined.
    UnknownFileType,
    /// The target file's extension names no supported format.
    UnsupportedFileType,
    /// The document carries no encryption to probe.
    NotEncrypted,
    /// The archive format is recognised but not handled.
    RarUnsupported,
}

impl CrackError {
    pub open spec fn spec_message(self) -> Seq<char> {
        match self {
            CrackError::EmptyCharset => "Charset cannot be empty"@,
            CrackError::MinLengthExceedsMax => "Min length cannot be greater than max length"@,
            CrackError::MaxLengthTooLarge => "Max length too large (max: 20)"@,
            CrackError::HeaderTooShort => "Encrypted header too short"@,
            CrackError::EmptyWordlist => "No passwords found in the specified path"@,
            CrackError::UnknownFileType => "Unable to determine file type"@,
            CrackError::UnsupportedFileType => "Unsupported file type"@,
            CrackError::NotEncrypted => "File is not encrypted"@,
            CrackError::RarUnsupported => "RAR support not implemented yet"@,
        }
    }

    /// A short description of the failure.
    pub fn message(&self) -> (r: &'static str)
        ensures
            r@ == self.spec_message(),
    {
        match self {
            CrackError::EmptyCharset => "Charset cannot be empty",
            CrackError::MinLengthExceedsMax => "Min length cannot be greater than max length",
            CrackError::MaxLengthTooLarge => "Max length too large (max: 20)",
            CrackError::HeaderTooShort => "Encrypted header too short",
            CrackError::EmptyWordlist => "No passwords found in the specified path",
            CrackError::UnknownFileType => "Unable to determine file type",
            CrackError::UnsupportedFileType => "Unsupported file type",
            CrackError::NotEncrypted => "File is not encrypted",
            CrackError::RarUnsupported => "RAR support not implemented yet",
        }
    }
}

} // verus!
