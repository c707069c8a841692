//! Entropy source: cryptographically secure random bytes, mapped into the
//! 58-symbol code alphabet (visually ambiguous characters are excluded).

use crate::text::string_from_ascii;
use vstd::prelude::*;

verus! {

/// The 58 characters a random code is drawn from; `0`, `O`, `I` and `l`
/// are left out as visually ambiguous.
pub open spec fn promo_alphabet() -> Seq<char> {
    "abcdefghijkmnopqrstuvwxyzABCDEFGHJKLMNPQRSTUVWXYZ123456789"@
}

/// The alphabet holds 58 ASCII symbols.
pub proof fn lemma_alphabet_shape()
    ensures
        promo_alphabet().len() == 58,
        vstd::utf8::is_ascii_chars(promo_alphabet()),
{
    reveal_strlit("abcdefghijkmnopqrstuvwxyzABCDEFGHJKLMNPQRSTUVWXYZ123456789");
}

/// None of the visually ambiguous characters appears in the alphabet.
pub proof fn lemma_alphabet_excludes_ambiguous()
    ensures
        !promo_alphabet().contains('0'),
        !promo_alphabet().contains('O'),
        !promo_alphabet().contains('I'),
        !promo_alphabet().contains('l'),
{
    reveal_strlit("abcdefghijkmnopqrstuvwxyzABCDEFGHJKLMNPQRSTUVWXYZ123456789");
}

/// The code characters that a sequence of random bytes maps to: each byte
/// picks an alphabet symbol by reduction modulo 58 (the slight bias of the
/// reduction is accepted, matching the codes already in circulation).
pub open spec fn code_chars_of(bytes: Seq<u8>) -> Seq<char> {
    bytes.map_values(|b: u8| promo_alphabet()[(b % 58) as int])
}

/// Relies on `rand::thread_rng` / `rand::Rng::fill` (re-exported by
/// `secp256k1`): fills a buffer of the asked size with random bytes.
/// Nothing can be promised of the bytes themselves.
#[verifier::external_body]
pub fn get_safe_rand(n_size: usize) -> (r: Vec<u8>)
    ensures
        r@.len() == n_size,
{
    let mut rng = secp256k1::rand::thread_rng();
    let mut random_values = vec![0; n_size];
    secp256k1::rand::Rng::fill(&mut rng, &mut random_values[..]);
    random_values
}

/// Maps bytes into the code alphabet, one symbol per byte.
pub fn map_bytes_to_code(bytes: &Vec<u8>) -> (r: String)
    ensures
        r@ == code_chars_of(bytes@),
{
    proof {
        lemma_alphabet_shape();
    }
    let alphabet: &str = "abcdefghijkmnopqrstuvwxyzABCDEFGHJKLMNPQRSTUVWXYZ123456789";
    let mut out: Vec<u8> = Vec::new();
    let mut i: usize = 0;
    while i < bytes.len()
        invariant
            i <= bytes@.len(),
            out@.len() == i,
            alphabet@ == promo_alphabet(),
            alphabet.is_ascii(),
            alphabet@.len() == 58,
            forall|j: int|
                0 <= j < i ==> out@[j] < 128 && out@[j] == (promo_alphabet()[(bytes@[j] % 58) as int] as u8),
        decreases bytes@.len() - i,
    {
        let idx = (bytes[i] % 58) as usize;
        let b = alphabet.get_ascii(idx);
        proof {
            vstd::utf8::is_ascii_chars_nat_bound(alphabet@);
        }
        out.push(b);
        i = i + 1;
    }
    let r = string_from_ascii(&out);
    proof {
        vstd::utf8::is_ascii_chars_nat_bound(promo_alphabet());
        assert forall|j: int| 0 <= j < bytes@.len() implies r@[j] == code_chars_of(bytes@)[j] by {
            let c = promo_alphabet()[(bytes@[j] % 58) as int];
            assert((c as nat) < 128);
            assert(r@[j] == ((c as u8) as char));
        }
        assert(r@ =~= code_chars_of(bytes@));
    }
    r
}

/// A random string of `n_size` symbols, each drawn from the 58-symbol
/// alphabet.
pub fn get_alpha_numeric_rand(n_size: usize) -> (r: String)
    ensures
        r@.len() == n_size,
        forall|i: int| 0 <= i < r@.len() ==> promo_alphabet().contains(#[trigger] r@[i]),
{
    let rand_values = get_safe_rand(n_size);
    let r = map_bytes_to_code(&rand_values);
    proof {
        lemma_alphabet_shape();
        assert forall|i: int| 0 <= i < r@.len() implies promo_alphabet().contains(
            #[trigger] r@[i],
        ) by {
            let k = (rand_values@[i] % 58) as int;
            assert(promo_alphabet()[k] == r@[i]);
        }
    }
    r
}

} // verus!
