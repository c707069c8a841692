use pivx_promos::codec::{decode_base58check, pubkey_to_address, secret_to_wif};

fn hex_to_bytes(s: &str) -> Vec<u8> {
    let b = s.as_bytes();
    let mut out = Vec::new();
    let mut i = 0;
    while i < b.len() {
        let hi = (b[i] as char).to_digit(16).unwrap() as u8;
        let lo = (b[i + 1] as char).to_digit(16).unwrap() as u8;
        out.push(hi * 16 + lo);
        i += 2;
    }
    out
}

fn secret_one() -> Vec<u8> {
    let mut k = vec![0u8; 32];
    k[31] = 1;
    k
}

// the compressed generator point: the public key of the scalar one
const PUB_ONE: &str = "0279be667ef9dcbbac55a06295ce870b07029bfcdb2dce28d959f2815b16f81798";

#[test]
fn wif_of_scalar_one_matches_reference() {
    // the classic reference vector for secret 1, compressed, version 0x80
    let wif = secret_to_wif(&secret_one(), 0x80);
    assert_eq!(wif, "KwDiBf89QgGbjEhKnhXJuH7LrciVrZi3qYjgd9M7rFU73sVHnoWn");
}

#[test]
fn wif_of_scalar_one_under_pivx_version_byte() {
    let wif = secret_to_wif(&secret_one(), 212);
    assert_eq!(wif, "YMvgDDPi7bE9ahorF4gKmu4Fm7bHyiV7Wf4ddJT56SmthgCGhJww");
}

#[test]
fn address_of_generator_matches_reference() {
    // the classic reference vector: P2PKH of the generator, version 0
    let addr = pubkey_to_address(&hex_to_bytes(PUB_ONE), 0);
    assert_eq!(addr, "1BgGZ9tcN4rm9KBzDn7KprQz87SZ26SAMH");
}

#[test]
fn address_of_generator_under_pivx_version_byte() {
    let addr = pubkey_to_address(&hex_to_bytes(PUB_ONE), 30);
    assert_eq!(addr, "DFpN6QqFfUm3gKNaxN6tNcab1FArL9cZLE");
}

#[test]
fn decode_recovers_wif_version_and_payload() {
    let key = secret_one();
    let wif = secret_to_wif(&key, 212);
    let (version, body) = decode_base58check(&wif).unwrap();
    assert_eq!(version, 212);
    let mut expected = key.clone();
    expected.push(1);
    assert_eq!(body, expected);
}

#[test]
fn decode_recovers_address_version_and_hash() {
    let addr = pubkey_to_address(&hex_to_bytes(PUB_ONE), 30);
    let (version, body) = decode_base58check(&addr).unwrap();
    assert_eq!(version, 30);
    assert_eq!(body.len(), 20);
}

#[test]
fn decode_accepts_known_vector() {
    let (version, body) = decode_base58check("3DUz7ncyT").unwrap();
    assert_eq!(version, 1);
    assert_eq!(body, vec![2u8, 3]);
}

#[test]
fn decode_rejects_tampered_text() {
    // flipping any symbol of a well-formed encoding breaks the checksum
    assert!(decode_base58check("4DUz7ncyT").is_none());
    assert!(decode_base58check("3DUz8ncyT").is_none());
    assert!(decode_base58check("3DUz7ncyU").is_none());
    assert!(decode_base58check("2DUz7ncyT").is_none());
    assert!(decode_base58check("YMvgDDPi7bE9ahorF4gKmu4Fm7bHyiV7Wf4ddJT56SmthgCGhJwx").is_none());
    assert!(decode_base58check("ZMvgDDPi7bE9ahorF4gKmu4Fm7bHyiV7Wf4ddJT56SmthgCGhJww").is_none());
}

#[test]
fn decode_rejects_short_or_invalid_text() {
    assert!(decode_base58check("").is_none());
    assert!(decode_base58check("ZiCa").is_none());
    assert!(decode_base58check("0OIl").is_none());
}
