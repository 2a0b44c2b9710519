//! Hashes.
use vstd::prelude::*;

verus! {

/// The SHA-256 hash of some bytes, in lower-case hexadecimal digits.
pub uninterp spec fn sha256_hex(bytes: Seq<u8>) -> Seq<char>;

/// `sha2::Sha256` over the bytes, written with `{:x}`. The contract says that the result is a
/// function of the bytes, and that it has 64 characters; what the function is, it leaves unsaid.
#[verifier::external_body]
pub(crate) fn sha256(bytes: &Vec<u8>) -> (r: String)
    ensures
        r@ == sha256_hex(bytes@),
        r@.len() == 64,
{
    let mut hasher = <sha2::Sha256 as sha2::Digest>::new();
    sha2::Digest::update(&mut hasher, bytes);
    format!("{:x}", sha2::Digest::finalize(hasher))
}

} // verus!
