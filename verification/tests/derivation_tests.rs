use pivx_promos::coins::get_supported_coins;
use pivx_promos::derivation::{
    create_promo_key_with_target, derive_key_from_code, make_promo_code, promo_targets,
    CURRENT_PROMO_TARGET,
};

fn hex_to_bytes(s: &str) -> Vec<u8> {
    let b = s.as_bytes();
    let mut out = Vec::new();
    let mut i = 0;
    while i < b.len() {
        let hi = (b[i] as char).to_digit(16).unwrap() as u8;
        let lo = (b[i + 1] as char).to_digit(16).unwrap() as u8;
        out.push(hi * 16 + lo);
        i += 2;
    }
    out
}

const ALPHABET: &str = "abcdefghijkmnopqrstuvwxyzABCDEFGHJKLMNPQRSTUVWXYZ123456789";

#[test]
fn targets_list_is_the_current_singleton() {
    let targets = promo_targets();
    assert_eq!(targets, vec![12_500_000u64]);
    assert_eq!(CURRENT_PROMO_TARGET, 12_500_000);
    assert_eq!(*targets.last().unwrap(), CURRENT_PROMO_TARGET);
}

#[test]
fn single_round_matches_sha256() {
    // one iteration is exactly one SHA-256 of the code bytes
    let k = derive_key_from_code("abc", 1);
    let expected = hex_to_bytes("ba7816bf8f01cfea414140de5dae2223b00361a396177a9cb410ff61f20015ad");
    assert_eq!(k, expected);
    let direct = bitcoin_hashes::sha256::Hash::hash(b"abc").to_byte_array().to_vec();
    assert_eq!(k, direct);
}

#[test]
fn two_rounds_match_double_sha256() {
    let k = derive_key_from_code("abc", 2);
    let expected = hex_to_bytes("4f8b42c22dd3729b519ba6f68d2da7cc5b2d606d05daed5ad5128cc03e6c6358");
    assert_eq!(k, expected);
}

#[test]
fn derivation_is_deterministic_for_fixed_code() {
    // the scenario code: re-running with the identical code string and
    // target reproduces the key byte for byte on every run
    let k1 = derive_key_from_code("promo-ab3Fz", 1000);
    let k2 = derive_key_from_code("promo-ab3Fz", 1000);
    assert_eq!(k1, k2);
    let expected = hex_to_bytes("f0cbccd89eb9bd33bd293371a43dbf5db824d7ccba0c9c282c4359d374754898");
    assert_eq!(k1, expected);
}

#[test]
fn code_without_prefix_has_six_random_symbols() {
    let code = make_promo_code("");
    assert_eq!(code.chars().count(), 6);
    for c in code.chars() {
        assert!(ALPHABET.contains(c));
    }
}

#[test]
fn code_with_prefix_has_five_random_symbols_after_separator() {
    let code = make_promo_code("promo");
    assert_eq!(code.chars().count(), 5 + 1 + 5);
    assert!(code.starts_with("promo-"));
    let suffix: Vec<char> = code.chars().skip(6).collect();
    assert_eq!(suffix.len(), 5);
    for c in suffix {
        assert!(ALPHABET.contains(c));
    }
}

#[test]
fn generated_codes_avoid_ambiguous_characters() {
    for _ in 0..20 {
        let code = make_promo_code("");
        for c in code.chars() {
            assert!(c != '0' && c != 'O' && c != 'I' && c != 'l');
        }
    }
}

#[test]
fn created_keypair_rederives_from_its_code() {
    let coins = get_supported_coins();
    let piv = &coins[0];
    let kp = create_promo_key_with_target("promo", piv, 50).unwrap();
    assert_eq!(kp.value, 0);
    assert_eq!(kp.private.len(), 32);
    // the key is a pure function of the code string and the target
    let again = derive_key_from_code(&kp.code, 50);
    assert_eq!(kp.private, again);
}

#[test]
fn created_keypair_address_matches_its_public_key() {
    let coins = get_supported_coins();
    let piv = &coins[0];
    let kp = create_promo_key_with_target("", piv, 25).unwrap();
    // recompute the compressed public key independently and re-encode it
    let sk = secp256k1::SecretKey::from_slice(&kp.private).unwrap();
    let secp = secp256k1::Secp256k1::new();
    let pubkey = secp256k1::PublicKey::from_secret_key(&secp, &sk).serialize().to_vec();
    let addr = pivx_promos::codec::pubkey_to_address(&pubkey, piv.pub_key_byte);
    assert_eq!(addr, kp.public);
}

#[test]
fn created_keypairs_use_fresh_entropy() {
    let coins = get_supported_coins();
    let piv = &coins[0];
    let a = create_promo_key_with_target("", piv, 5).unwrap();
    let b = create_promo_key_with_target("", piv, 5).unwrap();
    assert_ne!(a.code, b.code);
}
