//! Content fingerprinting for cover images.

use sha2::Digest;
use sha2::Sha256;
use vstd::prelude::*;

verus! {

/// The lowercase hexadecimal SHA-256 digest of a byte string, as a sequence
/// of characters. The digest is a pure function of the bytes alone, so a
/// single name suffices; nothing else is assumed about its value.
pub uninterp spec fn sha256_hex_of(bytes: Seq<u8>) -> Seq<char>;

/// Relies on sha2's `Sha256` (`new`, `update`, `finalize`): the digest is a
/// deterministic function of the input bytes, and its `{:x}` rendering is
/// 64 lowercase hexadecimal characters (a 32-byte digest, two digits each).
#[verifier::external_body]
pub(crate) fn sha256_hex(data: &[u8]) -> (r: String)
    ensures
        r@ == sha256_hex_of(data@),
        r@.len() == 64,
{
    let mut hasher = Sha256::new();
    hasher.update(data);
    let digest = hasher.finalize();
    let mut out = String::new();
    for byte in digest.iter() {
        out.push_str(&format!("{:02x}", byte));
    }
    out
}

} // verus!
