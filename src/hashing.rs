//! Hashing primitives, backed by the Solana program library.
use vstd::prelude::*;

verus! {

/// The Keccak-256 digest of a byte string.
pub uninterp spec fn keccak256_of(data: Seq<u8>) -> Seq<u8>;

/// Relies on `solana_program::keccak::hashv`: the digest of the
/// concatenation of its parts, here a single part holding all of `data`.
#[verifier::external_body]
pub(crate) fn keccak256(data: &Vec<u8>) -> (r: [u8; 32])
    ensures
        r@ == keccak256_of(data@),
{
    solana_program::keccak::hashv(&[data.as_slice()]).0
}

} // verus!
