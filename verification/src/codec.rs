//! Key/address codec: checksummed Base58 ("Base58Check") renderings of
//! private keys (export format) and of public keys (network addresses).

use crate::hashes::{ripemd160_bytes, ripemd160_of, sha256_bytes, sha256_of};
use vstd::prelude::*;

verus! {

/// The Base58 text for a byte string, as `base58` encodes it.
pub uninterp spec fn base58_of(b: Seq<u8>) -> Seq<char>;

/// Relies on `base58::ToBase58` for `[u8]`: the Base58 text of the bytes, a
/// function of the bytes alone. The encoder is written for inputs of at
/// most 128 bytes, so longer ones are kept out. Each leading zero byte
/// becomes one symbol and every other byte at most two, which bounds the
/// output's length.
#[verifier::external_body]
pub(crate) fn bytes_to_base58(b: &Vec<u8>) -> (r: String)
    requires
        b@.len() <= 128,
    ensures
        r@ == base58_of(b@),
        r@.len() <= 2 * b@.len() + 1,
{
    base58::ToBase58::to_base58(b.as_slice())
}

/// Relies on `base58::FromBase58` for `str`: decoding inverts encoding, and
/// whatever decodes re-encodes to the given text. The decoder's fixed
/// buffers are written for outputs of at most 132 bytes and can index out
/// of range past that, so long inputs are kept out.
#[verifier::external_body]
pub(crate) fn base58_to_bytes(s: &str) -> (r: Option<Vec<u8>>)
    requires
        s@.len() <= 128,
    ensures
        forall|p: Seq<u8>| s@ == base58_of(p) ==> r is Some && r->0@ == p,
        r is Some ==> s@ == base58_of(r->0@),
{
    match base58::FromBase58::from_base58(s) {
        Ok(v) => Some(v),
        Err(_) => None,
    }
}

/// The 4-byte Base58Check checksum of a payload: the leading bytes of its
/// double SHA-256.
pub open spec fn checksum4(payload: Seq<u8>) -> Seq<u8> {
    let d = sha256_of(sha256_of(payload));
    seq![d[0], d[1], d[2], d[3]]
}

/// A payload followed by its checksum, rendered in Base58.
pub open spec fn base58check(payload: Seq<u8>) -> Seq<char> {
    base58_of(payload + checksum4(payload))
}

/// The export-format payload: version byte, 32 key bytes, and the trailing
/// `0x01` that flags the compressed-public-key convention.
pub open spec fn wif_payload(version: u8, key: Seq<u8>) -> Seq<u8> {
    seq![version] + key + seq![1u8]
}

/// The address payload: version byte followed by the RIPEMD-160 of the
/// SHA-256 of the compressed public key.
pub open spec fn address_payload(version: u8, pubkey: Seq<u8>) -> Seq<u8> {
    seq![version] + ripemd160_of(sha256_of(pubkey))
}

/// Appends the 4-byte checksum of `payload` to it.
fn append_checksum(payload: Vec<u8>) -> (r: Vec<u8>)
    ensures
        r@ == payload@ + checksum4(payload@),
{
    let ghost orig = payload@;
    let first = sha256_bytes(payload.as_slice());
    let second = sha256_bytes(first.as_slice());
    let mut out = payload;
    out.push(second[0]);
    out.push(second[1]);
    out.push(second[2]);
    out.push(second[3]);
    proof {
        assert(out@ =~= orig + checksum4(orig));
    }
    out
}

/// Converts a secret key into the checksummed export format (WIF).
pub fn secret_to_wif(privkey: &Vec<u8>, version_byte: u8) -> (r: String)
    requires
        privkey@.len() == 32,
    ensures
        r@ == base58check(wif_payload(version_byte, privkey@)),
        r@.len() <= 85,
{
    let mut wif_bytes: Vec<u8> = Vec::new();
    wif_bytes.push(version_byte);
    let mut i: usize = 0;
    while i < 32
        invariant
            privkey@.len() == 32,
            i <= 32,
            wif_bytes@ =~= seq![version_byte] + privkey@.subrange(0, i as int),
        decreases 32 - i,
    {
        wif_bytes.push(privkey[i]);
        i = i + 1;
    }
    wif_bytes.push(1);
    proof {
        assert(wif_bytes@ =~= wif_payload(version_byte, privkey@));
    }
    let full = append_checksum(wif_bytes);
    bytes_to_base58(&full)
}

/// Converts a compressed public key into a coin address.
pub fn pubkey_to_address(pubkey: &Vec<u8>, version_byte: u8) -> (r: String)
    requires
        pubkey@.len() == 33,
    ensures
        r@ == base58check(address_payload(version_byte, pubkey@)),
        r@.len() <= 59,
{
    let pre_ripemd = sha256_bytes(pubkey.as_slice());
    let public_key_hash = ripemd160_bytes(pre_ripemd.as_slice());
    let mut address_bytes: Vec<u8> = Vec::new();
    address_bytes.push(version_byte);
    let mut i: usize = 0;
    while i < public_key_hash.len()
        invariant
            i <= public_key_hash@.len(),
            address_bytes@ =~= seq![version_byte] + public_key_hash@.subrange(0, i as int),
        decreases public_key_hash@.len() - i,
    {
        address_bytes.push(public_key_hash[i]);
        i = i + 1;
    }
    proof {
        assert(public_key_hash@.subrange(0, public_key_hash@.len() as int) =~= public_key_hash@);
        assert(address_bytes@ =~= address_payload(version_byte, pubkey@));
    }
    let full = append_checksum(address_bytes);
    bytes_to_base58(&full)
}

/// Decodes a Base58Check string back into its version byte and payload
/// body. Exactly the well-checksummed encodings are accepted: decoding
/// recovers what `base58check` encoded, and whatever is accepted re-encodes
/// to the given text.
pub fn decode_base58check(s: &str) -> (r: Option<(u8, Vec<u8>)>)
    requires
        s@.len() <= 128,
    ensures
        forall|p: Seq<u8>|
            1 <= p.len() && s@ == base58check(p) ==> (r matches Some(v) && v.0 == p[0] && v.1@
                == p.subrange(1, p.len() as int)),
        r matches Some(v) ==> s@ == base58check(seq![v.0] + v.1@),
{
    let decoded = match base58_to_bytes(s) {
        Some(d) => d,
        None => {
            proof {
                assert forall|p: Seq<u8>| 1 <= p.len() && s@ == base58check(p) implies false by {}
            }
            return None;
        },
    };
    if decoded.len() < 5 {
        proof {
            assert forall|p: Seq<u8>| 1 <= p.len() && s@ == base58check(p) implies false by {
                assert(decoded@ == p + checksum4(p));
            }
        }
        return None;
    }
    let plen = decoded.len() - 4;
    let mut payload: Vec<u8> = Vec::new();
    let mut i: usize = 0;
    while i < plen
        invariant
            plen + 4 == decoded@.len(),
            i <= plen,
            payload@ =~= decoded@.subrange(0, i as int),
        decreases plen - i,
    {
        payload.push(decoded[i]);
        i = i + 1;
    }
    let first = sha256_bytes(payload.as_slice());
    let second = sha256_bytes(first.as_slice());
    let ok = decoded[plen] == second[0] && decoded[plen + 1] == second[1] && decoded[plen + 2]
        == second[2] && decoded[plen + 3] == second[3];
    if !ok {
        proof {
            assert forall|p: Seq<u8>| 1 <= p.len() && s@ == base58check(p) implies false by {
                assert(decoded@ == p + checksum4(p));
                assert(payload@ =~= p);
            }
        }
        return None;
    }
    let version = payload[0];
    let mut body: Vec<u8> = Vec::new();
    let mut j: usize = 1;
    while j < plen
        invariant
            1 <= j <= plen,
            plen == payload@.len(),
            body@ =~= payload@.subrange(1, j as int),
        decreases plen - j,
    {
        body.push(payload[j]);
        j = j + 1;
    }
    proof {
        assert(decoded@ =~= payload@ + seq![
            decoded@[plen as int],
            decoded@[plen as int + 1],
            decoded@[plen as int + 2],
            decoded@[plen as int + 3],
        ]);
        assert(decoded@ =~= payload@ + checksum4(payload@));
        assert(payload@ =~= seq![version] + body@);
        assert forall|p: Seq<u8>| 1 <= p.len() && s@ == base58check(p) implies version == p[0]
            && body@ == p.subrange(1, p.len() as int) by {
            assert(decoded@ == p + checksum4(p));
            assert(payload@ =~= p);
            assert(body@ =~= p.subrange(1, p.len() as int));
        }
        assert(s@ == base58check(seq![version] + body@));
    }
    Some((version, body))
}

} // verus!
