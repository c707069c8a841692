//! Trusted bindings for the signing curve: scalar validity and compressed
//! public-key derivation, both functions of the 32 secret bytes alone.

use vstd::prelude::*;

verus! {

/// The big-endian value of a byte sequence.
pub open spec fn be_bytes_nat(b: Seq<u8>) -> nat
    decreases b.len(),
{
    if b.len() == 0 {
        0
    } else {
        (be_bytes_nat(b.drop_last()) * 256 + b.last()) as nat
    }
}

/// The order of the secp256k1 group.
pub open spec fn secp256k1_order() -> nat {
    0xFFFFFFFFFFFFFFFFFFFFFFFFFFFFFFFEBAAEDCE6AF48A03BBFD25E8CD0364141nat
}

/// A 32-byte scalar is a valid secret key when its big-endian value is
/// neither zero nor past the group order.
pub open spec fn is_valid_secret(b: Seq<u8>) -> bool {
    0 < be_bytes_nat(b) && be_bytes_nat(b) < secp256k1_order()
}

/// The 33-byte compressed public key for a valid secret scalar.
pub uninterp spec fn pubkey_bytes_of(secret: Seq<u8>) -> Seq<u8>;

/// Relies on `secp256k1::SecretKey::from_slice`: on 32 bytes it succeeds
/// exactly when the big-endian scalar lies in `[1, order - 1]`.
#[verifier::external_body]
pub(crate) fn secret_is_valid(b: &Vec<u8>) -> (r: bool)
    requires
        b@.len() == 32,
    ensures
        r == is_valid_secret(b@),
{
    secp256k1::SecretKey::from_slice(b.as_slice()).is_ok()
}

/// Relies on `secp256k1::PublicKey::from_secret_key` and
/// `PublicKey::serialize` (with `SecretKey::from_slice` converting the
/// argument and `Secp256k1::new` supplying the context): the compressed
/// public key is determined by the secret scalar alone.
#[verifier::external_body]
pub(crate) fn derive_pubkey(secret: &Vec<u8>) -> (r: Vec<u8>)
    requires
        secret@.len() == 32,
        is_valid_secret(secret@),
    ensures
        r@ == pubkey_bytes_of(secret@),
        r@.len() == 33,
{
    let sk = secp256k1::SecretKey::from_slice(secret.as_slice()).unwrap();
    let secp = secp256k1::Secp256k1::new();
    secp256k1::PublicKey::from_secret_key(&secp, &sk).serialize().to_vec()
}

} // verus!
