use vstd::prelude::*;
use vstd::string::StringExecFns;
use vstd::string::StringSliceAdditionalSpecFns;
use sha2::{Digest, Sha256};
use crate::errors::CrackError;
use crate::formats::DocumentCracker;

verus! {

/// What SHA-256 returns for a byte sequence; a function of the bytes alone.
pub uninterp spec fn sha256_of(data: Seq<u8>) -> Seq<u8>;

/// Relies on `sha2::Sha256`: the digest is 32 bytes, a function of the input
/// bytes alone.
#[verifier::external_body]
fn sha256_bytes(data: &[u8]) -> (r: Vec<u8>)
    ensures
        r@ == sha256_of(data@),
        r@.len() == 32,
{
    let mut hasher = Sha256::new();
    hasher.update(data);
    hasher.finalize().to_vec()
}

/// The digest after hashing the seed and re-hashing the result `n` times.
pub open spec fn spec_iterated_sha(seed: Seq<u8>, n: nat) -> Seq<u8>
    decreases n,
{
    if n == 0 {
        seed
    } else {
        sha256_of(spec_iterated_sha(seed, (n - 1) as nat))
    }
}

/// Parameters of an Office document's password-based encryption. The parser
/// below is a stand-in that reports fixed placeholder values.
#[derive(Debug)]
pub struct EncryptionInfo {
    pub _key_size: usize,
    pub salt: Vec<u8>,
    pub _encrypted_verifier: Vec<u8>,
    pub _encrypted_verifier_hash: Vec<u8>,
    pub spin_count: u32,
}

/// Whether an encryption-info record holds exactly the placeholder values.
pub open spec fn spec_placeholder_info(info: EncryptionInfo) -> bool {
    &&& info._key_size == 256
    &&& info.salt@ == Seq::new(16, |i: int| 0u8)
    &&& info._encrypted_verifier@ == Seq::new(16, |i: int| 0u8)
    &&& info._encrypted_verifier_hash@ == Seq::new(32, |i: int| 0u8)
    &&& info.spin_count == 100000u32
}

/// Verification target for password-protected Office documents. Key
/// derivation is real; the verifier comparison is a collaborator stand-in,
/// so no candidate is ever accepted.
pub struct OfficeCracker {
    pub file_path: String,
    pub encryption_info: EncryptionInfo,
}

impl OfficeCracker {
    /// Wrap a document whose `EncryptionInfo` stream was already read;
    /// a document without one carries no encryption and is rejected.
    pub fn new(file_path: String, encryption_stream: Option<Vec<u8>>) -> (r: Result<
        OfficeCracker,
        CrackError,
    >)
        ensures
            r is Ok <==> encryption_stream is Some,
            r is Err ==> r == Err::<OfficeCracker, CrackError>(CrackError::NotEncrypted),
            r matches Ok(g) ==> g.file_path == file_path && spec_placeholder_info(
                g.encryption_info,
            ),
    {
        let stream = match encryption_stream {
            Some(s) => s,
            None => {
                return Err(CrackError::NotEncrypted);
            },
        };
        let encryption_info = OfficeCracker::extract_encryption_info(stream.as_slice());
        Ok(OfficeCracker { file_path, encryption_info })
    }

    /// Parse an `EncryptionInfo` stream. The binary layout of the Office
    /// encryption specification is not interpreted here: fixed placeholder
    /// parameters are reported whatever the stream holds.
    pub fn extract_encryption_info(stream: &[u8]) -> (r: EncryptionInfo)
        ensures
            spec_placeholder_info(r),
    {
        let _ = stream;
        EncryptionInfo {
            _key_size: 256,
            salt: zero_bytes(16),
            _encrypted_verifier: zero_bytes(16),
            _encrypted_verifier_hash: zero_bytes(32),
            spin_count: 100000,
        }
    }

    /// Derive the candidate key: hash the salt and password, then re-hash
    /// the digest spin-count times.
    pub fn derive_key(&self, password: &str) -> (r: Vec<u8>)
        ensures
            r@ == spec_iterated_sha(
                sha256_of(self.encryption_info.salt@ + password.spec_bytes()),
                self.encryption_info.spin_count as nat,
            ),
    {
        let mut seed: Vec<u8> = Vec::new();
        let salt = self.encryption_info.salt.as_slice();
        let mut i: usize = 0;
        while i < salt.len()
            invariant
                i <= salt@.len(),
                salt@ == self.encryption_info.salt@,
                seed@ == salt@.take(i as int),
            decreases salt@.len() - i,
        {
            seed.push(salt[i]);
            proof {
                assert(salt@.take(i + 1) =~= salt@.take(i as int).push(salt@[i as int]));
            }
            i = i + 1;
        }
        let pw = password.as_bytes();
        let mut j: usize = 0;
        while j < pw.len()
            invariant
                j <= pw@.len(),
                pw@ == password.spec_bytes(),
                seed@ == self.encryption_info.salt@ + pw@.take(j as int),
            decreases pw@.len() - j,
        {
            seed.push(pw[j]);
            proof {
                assert(self.encryption_info.salt@ + pw@.take(j + 1) =~= (self
                    .encryption_info
                    .salt@ + pw@.take(j as int)).push(pw@[j as int]));
            }
            j = j + 1;
        }
        proof {
            assert(salt@.take(salt@.len() as int) =~= self.encryption_info.salt@);
            assert(self.encryption_info.salt@ + pw@.take(pw@.len() as int) =~= self
                .encryption_info
                .salt@ + password.spec_bytes());
        }
        let mut result = sha256_bytes(seed.as_slice());
        let ghost seed0 = sha256_of(self.encryption_info.salt@ + password.spec_bytes());
        let spin_count = self.encryption_info.spin_count;
        let mut round: u32 = 0;
        while round < spin_count
            invariant
                round <= spin_count,
                result@ == spec_iterated_sha(seed0, round as nat),
            decreases spin_count - round,
        {
            result = sha256_bytes(result.as_slice());
            round = round + 1;
        }
        result
    }

    /// Probe one candidate: the key is derived, but decrypting and checking
    /// the verifier is a collaborator stand-in, so no candidate is accepted.
    pub fn verify_password_internal(&self, password: &str) -> (r: Result<bool, CrackError>)
        ensures
            r == Ok::<bool, CrackError>(false),
    {
        let _key = self.derive_key(password);
        Ok(false)
    }
}

/// A vector of `n` zero bytes.
fn zero_bytes(n: usize) -> (r: Vec<u8>)
    ensures
        r@ == Seq::new(n as nat, |i: int| 0u8),
{
    let mut v: Vec<u8> = Vec::new();
    let mut i: usize = 0;
    while i < n
        invariant
            i <= n,
            v@ == Seq::new(i as nat, |k: int| 0u8),
        decreases n - i,
    {
        v.push(0);
        proof {
            assert(v@ =~= Seq::new((i + 1) as nat, |k: int| 0u8));
        }
        i = i + 1;
    }
    v
}

impl DocumentCracker for OfficeCracker {
    open spec fn accepts(&self, password: Seq<char>) -> bool {
        false
    }

    open spec fn info(&self) -> Seq<char> {
        "Office Document: "@ + self.file_path@
    }

    open spec fn format_tag(&self) -> Seq<char> {
        "Office"@
    }

    fn verify_password(&self, password: &str) -> (r: Result<bool, CrackError>) {
        self.verify_password_internal(password)
    }

    fn get_info(&self) -> (r: String) {
        let mut s = String::from_str("Office Document: ");
        s.append(self.file_path.as_str());
        s
    }

    fn get_type(&self) -> (r: &'static str) {
        "Office"
    }
}

} // verus!
