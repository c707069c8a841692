//! Trusted bindings for the cryptographic digests the derivation engine and
//! the codec rely on.

use ripemd::Digest;
use vstd::prelude::*;

verus! {

/// The SHA-256 digest of a byte sequence, as computed by `bitcoin_hashes`.
pub uninterp spec fn sha256_of(b: Seq<u8>) -> Seq<u8>;

/// The RIPEMD-160 digest of a byte sequence, as computed by `ripemd`.
pub uninterp spec fn ripemd160_of(b: Seq<u8>) -> Seq<u8>;

/// Relies on `bitcoin_hashes::sha256::Hash::hash`: the 32-byte SHA-256
/// digest of the input, a function of the input bytes alone;
/// `to_byte_array` hands back exactly those 32 bytes.
#[verifier::external_body]
pub(crate) fn sha256_bytes(b: &[u8]) -> (r: Vec<u8>)
    ensures
        r@ == sha256_of(b@),
        r@.len() == 32,
{
    bitcoin_hashes::sha256::Hash::hash(b).to_byte_array().to_vec()
}

/// Relies on `ripemd::Ripemd160` (`Digest::digest`): the 20-byte RIPEMD-160
/// digest of the input, a function of the input bytes alone.
#[verifier::external_body]
pub(crate) fn ripemd160_bytes(b: &[u8]) -> (r: Vec<u8>)
    ensures
        r@ == ripemd160_of(b@),
        r@.len() == 20,
{
    ripemd::Ripemd160::digest(b).to_vec()
}

} // verus!
