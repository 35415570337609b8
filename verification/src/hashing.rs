//! The fairness-commitment digest.

use vstd::prelude::*;

verus! {

/// The Keccak-256 digest of a byte sequence, as the hashing crate computes
/// it: 32 bytes, a function of the input bytes alone.
pub uninterp spec fn keccak_of(data: Seq<u8>) -> Seq<u8>;

/// Relies on `anchor_lang::solana_program::keccak::hash`, which returns the
/// Keccak-256 digest of `data` as a 32-byte `Hash`; `to_bytes` unwraps it.
#[verifier::external_body]
pub(crate) fn keccak256(data: &[u8]) -> (r: [u8; 32])
    ensures
        r@ == keccak_of(data@),
{
    anchor_lang::solana_program::keccak::hash(data).to_bytes()
}

} // verus!
