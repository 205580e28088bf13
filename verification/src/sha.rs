//! The content hash behind object identifiers.

use sha1::{Digest, Sha1};
use vstd::prelude::*;

verus! {

/// The SHA-1 digest of a byte sequence. Left uninterpreted: the contracts of
/// this library only depend on the digest being a fixed function of the
/// hashed bytes.
pub uninterp spec fn sha1_of(data: Seq<u8>) -> Seq<u8>;

/// Relies on sha1::Sha1 (the RustCrypto implementation): the digest is a
/// function of the fed bytes alone, and is always 20 bytes long.
#[verifier::external_body]
pub(crate) fn sha1_digest(data: &Vec<u8>) -> (r: Vec<u8>)
    ensures
        r@ == sha1_of(data@),
        r@.len() == 20,
{
    let mut hasher = Sha1::new();
    hasher.update(data.as_slice());
    hasher.finalize().to_vec()
}

} // verus!
