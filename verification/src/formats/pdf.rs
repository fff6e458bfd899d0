use vstd::prelude::*;
use vstd::string::StringExecFns;
use crate::errors::CrackError;
use crate::formats::DocumentCracker;

verus! {

/// The byte sequence whose presence marks an encrypted PDF: `/Encrypt`.
pub open spec fn spec_encrypt_marker() -> Seq<u8> {
    seq![47u8, 69u8, 110u8, 99u8, 114u8, 121u8, 112u8, 116u8]
}

/// Whether the marker occurs anywhere in the data.
pub open spec fn spec_contains_marker(data: Seq<u8>) -> bool {
    exists|k: int|
        0 <= k && k + 8 <= data.len() && #[trigger] data.subrange(k, k + 8)
            == spec_encrypt_marker()
}

/// Stand-in verification target for encrypted PDF files: encryption is
/// detected, but no candidate is ever accepted.
pub struct PdfCracker {
    pub file_path: String,
    pub file_data: Vec<u8>,
}

impl PdfCracker {
    /// Wrap the raw bytes of the PDF at `file_path`; a file that carries no
    /// encryption marker is a fatal construction error.
    pub fn new(file_path: String, file_data: Vec<u8>) -> (r: Result<PdfCracker, CrackError>)
        ensures
            r is Ok <==> spec_contains_marker(file_data@),
            r is Err ==> r == Err::<PdfCracker, CrackError>(CrackError::NotEncrypted),
            r matches Ok(g) ==> g.file_path == file_path && g.file_data == file_data,
    {
        let encrypted = match PdfCracker::is_encrypted(file_data.as_slice()) {
            Ok(b) => b,
            Err(e) => {
                return Err(e);
            },
        };
        if !encrypted {
            return Err(CrackError::NotEncrypted);
        }
        Ok(PdfCracker { file_path, file_data })
    }

    /// Whether the data carries the PDF encryption marker.
    pub fn is_encrypted(data: &[u8]) -> (r: Result<bool, CrackError>)
        ensures
            r == Ok::<bool, CrackError>(spec_contains_marker(data@)),
    {
        if data.len() < 8 {
            return Ok(false);
        }
        let mut k: usize = 0;
        let last = data.len() - 8;
        while k <= last
            invariant
                data@.len() >= 8,
                data@.len() <= usize::MAX,
                last == data@.len() - 8,
                k <= last + 1,
                forall|j: int|
                    0 <= j < k ==> #[trigger] data@.subrange(j, j + 8) != spec_encrypt_marker(),
            decreases data@.len() - k,
        {
            if marker_at(data, k) {
                proof {
                    assert(data@.subrange(k as int, k + 8) == spec_encrypt_marker());
                }
                return Ok(true);
            }
            k = k + 1;
        }
        proof {
            assert forall|j: int| 0 <= j && j + 8 <= data@.len() implies #[trigger] data@.subrange(
                j,
                j + 8,
            ) != spec_encrypt_marker() by {
                assert(j < k);
            }
        }
        Ok(false)
    }

    /// Probe one candidate; PDF password checking is a collaborator's
    /// business, so no candidate is accepted here.
    pub fn try_password(&self, _password: &str) -> (r: Result<bool, CrackError>)
        ensures
            r == Ok::<bool, CrackError>(false),
    {
        Ok(false)
    }
}

/// Whether the marker sits at offset `k`.
fn marker_at(data: &[u8], k: usize) -> (r: bool)
    requires
        k + 8 <= data@.len(),
    ensures
        r == (data@.subrange(k as int, k as int + 8) == spec_encrypt_marker()),
{
    let r = data[k] == 47 && data[k + 1] == 69 && data[k + 2] == 110 && data[k + 3] == 99
        && data[k + 4] == 114 && data[k + 5] == 121 && data[k + 6] == 112 && data[k + 7] == 116;
    proof {
        if r {
            assert(data@.subrange(k as int, k as int + 8) =~= spec_encrypt_marker());
        } else {
            assert(data@.subrange(k as int, k as int + 8) != spec_encrypt_marker()) by {
                if data@.subrange(k as int, k as int + 8) == spec_encrypt_marker() {
                    assert(data@[k as int] == spec_encrypt_marker()[0]);
                    assert(data@[k as int + 1] == spec_encrypt_marker()[1]);
                    assert(data@[k as int + 2] == spec_encrypt_marker()[2]);
                    assert(data@[k as int + 3] == spec_encrypt_marker()[3]);
                    assert(data@[k as int + 4] == spec_encrypt_marker()[4]);
                    assert(data@[k as int + 5] == spec_encrypt_marker()[5]);
                    assert(data@[k as int + 6] == spec_encrypt_marker()[6]);
                    assert(data@[k as int + 7] == spec_encrypt_marker()[7]);
                }
            }
        }
    }
    r
}

impl DocumentCracker for PdfCracker {
    open spec fn accepts(&self, password: Seq<char>) -> bool {
        false
    }

    open spec fn info(&self) -> Seq<char> {
        "PDF File: "@ + self.file_path@
    }

    open spec fn format_tag(&self) -> Seq<char> {
        "PDF"@
    }

    fn verify_password(&self, password: &str) -> (r: Result<bool, CrackError>) {
        self.try_password(password)
    }

    fn get_info(&self) -> (r: String) {
        let mut s = String::from_str("PDF File: ");
        s.append(self.file_path.as_str());
        s
    }

    fn get_type(&self) -> (r: &'static str) {
        "PDF"
    }
}

} // verus!
