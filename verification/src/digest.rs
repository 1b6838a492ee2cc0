//! Credential hashing for guards: a SHA3-384 digest encoded as standard
//! base64, which always yields a 64-character string.

use vstd::prelude::*;

use base64::Engine;
use sha3::Digest;

verus! {

/// What SHA3-384 returns for the given input bytes.
pub uninterp spec fn sha3_384_of(data: Seq<u8>) -> Seq<u8>;

/// Relies on sha3::Sha3_384 through the Digest trait: the digest is a
/// function of the input bytes alone and is always 48 bytes long.
#[verifier::external_body]
fn sha3_384(data: &[u8]) -> (r: Vec<u8>)
    ensures
        r@ == sha3_384_of(data@),
        r@.len() == 48,
{
    sha3::Sha3_384::digest(data).to_vec()
}

/// What the standard base64 alphabet encodes the given bytes to.
pub uninterp spec fn base64_of(data: Seq<u8>) -> Seq<char>;

/// Relies on base64's STANDARD engine: the encoding is a function of the
/// input bytes alone, four characters for every started group of three
/// bytes.
#[verifier::external_body]
fn base64_encode(data: &[u8]) -> (r: String)
    ensures
        r@ == base64_of(data@),
        r@.len() == 4 * ((data@.len() + 2) / 3),
{
    base64::engine::general_purpose::STANDARD.encode(data)
}

/// The 64-character credential hash: base64 of the SHA3-384 digest of the
/// UTF-8 bytes of `s`.
pub open spec fn spec_hash64(s: Seq<char>) -> Seq<char> {
    base64_of(sha3_384_of(vstd::utf8::encode_utf8(s)))
}

/// Hashes one credential; the result always has exactly 64 characters.
pub fn hash_credential(s: &str) -> (r: String)
    ensures
        r@ == spec_hash64(s@),
        r@.len() == 64,
{
    let digest = sha3_384(s.as_bytes());
    base64_encode(digest.as_slice())
}

} // verus!
