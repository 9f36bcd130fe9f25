//! The one cryptographic primitive the puzzle engine rests on.

use vstd::prelude::*;

verus! {

/// The 32-byte SHA-256 digest of a byte string. Named, never written out:
/// every contract that mentions a digest speaks of this name, and only the
/// outside hasher ever produces one.
pub uninterp spec fn sha256_of(data: Seq<u8>) -> Seq<u8>;

/// Relies on `solana_program::hash::hash`: the SHA-256 digest of the input,
/// a function of the bytes alone, and on `Hash::to_bytes`, which hands out
/// its 32 bytes.
#[verifier::external_body]
pub(crate) fn hash_bytes(data: &Vec<u8>) -> (r: Vec<u8>)
    ensures
        r@ == sha256_of(data@),
        r@.len() == 32,
{
    solana_program::hash::hash(data.as_slice()).to_bytes().to_vec()
}

} // verus!
