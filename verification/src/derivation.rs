//! Code derivation engine: a promo code is stretched into a private key by
//! a fixed-length SHA-256 hash chain, then rendered as an address.

use crate::codec::{address_payload, base58check, pubkey_to_address};
use crate::coins::CoinParams;
use crate::curve::{derive_pubkey, is_valid_secret, pubkey_bytes_of, secret_is_valid};
use crate::entropy::{get_alpha_numeric_rand, promo_alphabet};
use crate::hashes::{sha256_bytes, sha256_of};
use vstd::prelude::*;

verus! {

/// The iteration target every new code is derived under.
pub const CURRENT_PROMO_TARGET: u64 = 12_500_000;

/// The ordered, append-only list of historical iteration targets; codes are
/// always generated with the last (largest) entry, and old entries must
/// stay so that codes issued under them remain verifiable.
pub fn promo_targets() -> (r: Vec<u64>)
    ensures
        r@ == seq![CURRENT_PROMO_TARGET],
{
    let mut targets: Vec<u64> = Vec::new();
    targets.push(CURRENT_PROMO_TARGET);
    proof {
        assert(targets@ =~= seq![CURRENT_PROMO_TARGET]);
    }
    targets
}

/// `n` SHA-256 applications starting from `b`: the first hashes `b` itself,
/// each further round hashes the previous 32-byte digest.
pub open spec fn hash_chain(b: Seq<u8>, n: nat) -> Seq<u8>
    decreases n,
{
    if n <= 1 {
        sha256_of(b)
    } else {
        sha256_of(hash_chain(b, (n - 1) as nat))
    }
}

/// For a target of `n`, the chain performs exactly `n` SHA-256
/// applications: one on the code bytes and one on each of the `n - 1`
/// intermediate digests.
pub proof fn lemma_hash_chain_iterations(b: Seq<u8>, n: nat)
    requires
        2 <= n,
    ensures
        hash_chain(b, 1) == sha256_of(b),
        hash_chain(b, n) == sha256_of(hash_chain(b, (n - 1) as nat)),
{
}

/// Fixing the code bytes and the target fixes the derived key: derivation
/// is deterministic, entropy enters only through the choice of the code.
pub proof fn lemma_derivation_deterministic(b: Seq<u8>, n: nat, k1: Seq<u8>, k2: Seq<u8>)
    requires
        k1 == hash_chain(b, n),
        k2 == hash_chain(b, n),
    ensures
        k1 == k2,
{
}

/// Stretches a code string into a 32-byte candidate key by `target`
/// SHA-256 rounds over its UTF-8 bytes.
pub fn derive_key_from_code(code: &str, target: u64) -> (r: Vec<u8>)
    requires
        1 <= target,
    ensures
        r@ == hash_chain(vstd::utf8::encode_utf8(code@), target as nat),
        r@.len() == 32,
{
    let bytes = code.as_bytes();
    let mut promo_key = sha256_bytes(bytes);
    let mut iterations: u64 = 1;
    while iterations < target
        invariant
            1 <= iterations <= target,
            promo_key@ == hash_chain(vstd::utf8::encode_utf8(code@), iterations as nat),
            promo_key@.len() == 32,
        decreases target - iterations,
    {
        promo_key = sha256_bytes(promo_key.as_slice());
        iterations = iterations + 1;
    }
    promo_key
}

/// A well-formed promo code for the given prefix: six random alphabet
/// symbols when the prefix is empty, or the prefix, a separator, and five
/// random symbols, keeping the combined entropy budget constant.
pub open spec fn code_wf(code: Seq<char>, prefix: Seq<char>) -> bool {
    if prefix.len() == 0 {
        code.len() == 6 && (forall|i: int|
            0 <= i < code.len() ==> promo_alphabet().contains(#[trigger] code[i]))
    } else {
        code.len() == prefix.len() + 6 && code.subrange(0, prefix.len() as int) == prefix && code[prefix.len() as int]
            == '-' && (forall|i: int|
            prefix.len() + 1 <= i < code.len() ==> promo_alphabet().contains(#[trigger] code[i]))
    }
}

/// Builds a fresh promo code from the prefix and random alphabet symbols.
pub fn make_promo_code(prefix: &str) -> (r: String)
    ensures
        code_wf(r@, prefix@),
{
    if prefix.is_empty() {
        get_alpha_numeric_rand(6)
    } else {
        let mut code = prefix.to_owned();
        code.append("-");
        let suffix = get_alpha_numeric_rand(5);
        code.append(suffix.as_str());
        proof {
            reveal_strlit("-");
            assert(code@ =~= prefix@ + "-"@ + suffix@);
            assert(code@.subrange(0, prefix@.len() as int) =~= prefix@);
            assert(code@[prefix@.len() as int] == '-');
        }
        code
    }
}

/// A derived keypair: the private scalar, the encoded public address, the
/// code it came from, and the value later funded onto it (in 1e-8 coin
/// units; zero until funding succeeds).
pub struct OptimisedPromoKeypair {
    /// The 32-byte private-key scalar.
    pub private: Vec<u8>,
    /// The Base58Check-encoded public address.
    pub public: String,
    /// The promo code the key was derived from.
    pub code: String,
    /// The funded value, in 1e-8 coin units; zero until funding succeeds.
    pub value: u64,
}

/// What derivation guarantees of a keypair: the code is well formed for
/// the prefix, the key is the hash chain of the code bytes at the given
/// target, the scalar is valid on the curve, and the address is the
/// Base58Check rendering of the hashed compressed public key under the
/// coin's version byte.
pub open spec fn keypair_derived(
    kp: OptimisedPromoKeypair,
    prefix: Seq<char>,
    pub_key_byte: u8,
    target: nat,
) -> bool {
    &&& code_wf(kp.code@, prefix)
    &&& kp.private@ == hash_chain(vstd::utf8::encode_utf8(kp.code@), target)
    &&& kp.private@.len() == 32
    &&& is_valid_secret(kp.private@)
    &&& kp.public@ == base58check(address_payload(pub_key_byte, pubkey_bytes_of(kp.private@)))
}

/// How many fresh codes are tried when a derived scalar falls outside the
/// curve order (a practically unreachable event) before giving up.
pub const MAX_DERIVE_ATTEMPTS: u64 = 64;

/// Creates a promo keypair under an explicit iteration target: draws a
/// code, stretches it into a key, and encodes the address. A code whose
/// scalar is invalid for the curve is discarded and a fresh one is drawn;
/// after `MAX_DERIVE_ATTEMPTS` fruitless draws (probability about 2^-8000)
/// the derivation reports failure rather than hand out an invalid key.
pub fn create_promo_key_with_target(prefix: &str, coin_params: &CoinParams, target: u64) -> (r:
    Option<OptimisedPromoKeypair>)
    requires
        1 <= target,
    ensures
        r matches Some(kp) ==> keypair_derived(
            kp,
            prefix@,
            coin_params.pub_key_byte,
            target as nat,
        ) && kp.value == 0,
{
    let mut attempts: u64 = 0;
    while attempts < MAX_DERIVE_ATTEMPTS
        invariant
            1 <= target,
        decreases MAX_DERIVE_ATTEMPTS - attempts,
    {
        let promo_code = make_promo_code(prefix);
        let private = derive_key_from_code(promo_code.as_str(), target);
        if secret_is_valid(&private) {
            let pubkey = derive_pubkey(&private);
            let public = pubkey_to_address(&pubkey, coin_params.pub_key_byte);
            return Some(
                OptimisedPromoKeypair { private, public, code: promo_code, value: 0 },
            );
        }
        attempts = attempts + 1;
    }
    None
}

/// Creates a promo keypair under the current (latest) iteration target.
pub fn create_promo_key(prefix: &str, coin_params: &CoinParams) -> (r: Option<
    OptimisedPromoKeypair,
>)
    ensures
        r matches Some(kp) ==> keypair_derived(
            kp,
            prefix@,
            coin_params.pub_key_byte,
            CURRENT_PROMO_TARGET as nat,
        ) && kp.value == 0,
{
    let targets = promo_targets();
    let target = targets[targets.len() - 1];
    create_promo_key_with_target(prefix, coin_params, target)
}

} // verus!
