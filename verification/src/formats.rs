pub mod archive;
pub mod office;
pub mod pdf;
pub mod zip_crypto;

use vstd::prelude::*;
use vstd::string::StrSliceExecFns;
use crate::errors::CrackError;

verus! {

/// A format-specific verification target: it can check one candidate
/// password against the document it was built for.
///
/// `accepts` models the exact acceptance predicate; an `Err` while probing a
/// candidate counts as a non-match, so `Ok(true)` and acceptance coincide.
pub trait DocumentCracker: Sized {
    /// Whether this target accepts the candidate.
    spec fn accepts(&self, password: Seq<char>) -> bool;

    /// The one-line description `get_info` returns.
    spec fn info(&self) -> Seq<char>;

    /// The short format tag `get_type` returns.
    spec fn format_tag(&self) -> Seq<char>;

    /// Check one candidate; errors are absorbed as non-matches.
    fn verify_password(&self, password: &str) -> (r: Result<bool, CrackError>)
        ensures
            (r matches Ok(b) && b) <==> self.accepts(password@),
    ;

    /// A one-line description of the target document.
    fn get_info(&self) -> (r: String)
        ensures
            r@ == self.info(),
    ;

    /// The short tag of the document format.
    fn get_type(&self) -> (r: &'static str)
        ensures
            r@ == self.format_tag(),
    ;
}

/// The document format a file extension selects.
#[derive(Debug, Clone, Copy, PartialEq, Eq, Structural)]
pub enum DocumentType {
    Pdf,
    Office,
    Zip,
}

/// Whether candidate extension character `c` matches the lowercase letter
/// `l`, ignoring ASCII case.
pub open spec fn spec_char_matches(c: char, l: char) -> bool {
    c == l || ('A' <= c && c <= 'Z' && c as u32 + 32 == l as u32)
}

/// Whether an extension equals a lowercase literal, ignoring ASCII case.
pub open spec fn spec_ext_matches(ext: Seq<char>, lit: Seq<char>) -> bool {
    ext.len() == lit.len() && (forall|i: int|
        0 <= i < ext.len() ==> spec_char_matches(ext[i], lit[i]))
}

/// The format an extension selects, if any.
pub open spec fn spec_document_type(ext: Seq<char>) -> Option<DocumentType> {
    if spec_ext_matches(ext, "pdf"@) {
        Option::Some(DocumentType::Pdf)
    } else if spec_ext_matches(ext, "docx"@) || spec_ext_matches(ext, "xlsx"@)
        || spec_ext_matches(ext, "pptx"@) {
        Option::Some(DocumentType::Office)
    } else if spec_ext_matches(ext, "zip"@) {
        Option::Some(DocumentType::Zip)
    } else {
        Option::None
    }
}

/// Whether one extension character matches a lowercase letter, ignoring
/// ASCII case.
fn char_matches(c: char, l: char) -> (r: bool)
    ensures
        r == spec_char_matches(c, l),
{
    c == l || ('A' <= c && c <= 'Z' && (c as u32) + 32 == (l as u32))
}

/// Whether an extension equals a lowercase literal, ignoring ASCII case.
fn ext_matches(ext: &str, lit: &str) -> (r: bool)
    ensures
        r == spec_ext_matches(ext@, lit@),
{
    let n = ext.unicode_len();
    let m = lit.unicode_len();
    if n != m {
        return false;
    }
    let mut i: usize = 0;
    while i < n
        invariant
            n == ext@.len(),
            n == lit@.len(),
            i <= n,
            forall|k: int| 0 <= k < i ==> spec_char_matches(ext@[k], lit@[k]),
        decreases n - i,
    {
        if !char_matches(ext.get_char(i), lit.get_char(i)) {
            return false;
        }
        i = i + 1;
    }
    true
}

/// Select the document format for a file extension, case-insensitively:
/// `pdf`, the Office family (`docx`, `xlsx`, `pptx`), or `zip`. A missing
/// extension and an unknown one are fatal construction errors.
pub fn create_cracker(extension: Option<&str>) -> (r: Result<DocumentType, CrackError>)
    ensures
        extension is None ==> r == Err::<DocumentType, CrackError>(CrackError::UnknownFileType),
        extension matches Some(ext) ==> r == (match spec_document_type(ext@) {
            Option::Some(t) => Ok::<DocumentType, CrackError>(t),
            Option::None => Err::<DocumentType, CrackError>(CrackError::UnsupportedFileType),
        }),
{
    let ext = match extension {
        Some(e) => e,
        None => {
            return Err(CrackError::UnknownFileType);
        },
    };
    if ext_matches(ext, "pdf") {
        Ok(DocumentType::Pdf)
    } else if ext_matches(ext, "docx") || ext_matches(ext, "xlsx") || ext_matches(ext, "pptx") {
        Ok(DocumentType::Office)
    } else if ext_matches(ext, "zip") {
        Ok(DocumentType::Zip)
    } else {
        Err(CrackError::UnsupportedFileType)
    }
}

} // verus!
