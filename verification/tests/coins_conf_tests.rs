use pivx_promos::coins::{default_coin_index, get_supported_coins, pick_coin_index, CoinParams};
use pivx_promos::conf::{parse_coin_conf_text, parse_u16};
use pivx_promos::entropy::{get_alpha_numeric_rand, get_safe_rand};

#[test]
fn supported_coins_hold_the_registry() {
    let coins = get_supported_coins();
    assert_eq!(coins.len(), 6);
    assert_eq!(coins[0].name, "PIVX");
    assert_eq!(coins[0].ticker, "PIV");
    assert_eq!(coins[0].conf_dir_name, "PIVX");
    assert_eq!(coins[0].conf_file_name, "pivx.conf");
    assert_eq!(coins[0].default_rpc_port, 51473);
    assert_eq!(coins[0].pub_key_byte, 30);
    assert_eq!(coins[0].priv_key_byte, 212);
    assert_eq!(coins[0].promo_fee, 10_000);
    assert_eq!(coins[1].ticker, "DOGE");
    assert_eq!(coins[1].promo_fee, 1_000_000);
    assert_eq!(coins[5].ticker, "NMNSC");
}

#[test]
fn default_coin_is_the_first_piv_entry() {
    let coins = get_supported_coins();
    assert_eq!(default_coin_index(&coins), 0);
    let mut reordered = get_supported_coins();
    reordered.swap(0, 2);
    assert_eq!(default_coin_index(&reordered), 2);
}

fn no_piv() -> Vec<CoinParams> {
    let mut coins = get_supported_coins();
    coins.remove(0);
    coins
}

#[test]
fn default_coin_falls_back_to_first() {
    assert_eq!(default_coin_index(&no_piv()), 0);
}

#[test]
fn selection_resolves_one_based_or_falls_back() {
    let coins = get_supported_coins();
    assert_eq!(pick_coin_index(&coins, 2), 1);
    assert_eq!(pick_coin_index(&coins, 6), 5);
    assert_eq!(pick_coin_index(&coins, 0), 0);
    assert_eq!(pick_coin_index(&coins, 7), 0);
}

#[test]
fn random_bytes_have_the_asked_size() {
    assert_eq!(get_safe_rand(32).len(), 32);
    assert_eq!(get_safe_rand(0).len(), 0);
}

#[test]
fn random_strings_have_the_asked_size() {
    assert_eq!(get_alpha_numeric_rand(6).chars().count(), 6);
    assert_eq!(get_alpha_numeric_rand(0).chars().count(), 0);
}

fn piv() -> CoinParams {
    get_supported_coins().remove(0)
}

#[test]
fn conf_recognized_keys_override_defaults() {
    let conf = "rpcuser=alice\nrpcpassword=hunter2\nrpcport=12345\n";
    let cfg = parse_coin_conf_text(conf, &piv());
    assert_eq!(cfg.rpc_user, "alice");
    assert_eq!(cfg.rpc_pass, "hunter2");
    assert_eq!(cfg.rpc_port, 12345);
}

#[test]
fn conf_empty_text_keeps_defaults() {
    let cfg = parse_coin_conf_text("", &piv());
    assert_eq!(cfg.rpc_user, "user");
    assert_eq!(cfg.rpc_pass, "pass");
    assert_eq!(cfg.rpc_port, 51473);
}

#[test]
fn conf_unknown_keys_and_plain_lines_are_ignored() {
    let conf = "staking=1\nnonsense\n=odd\nrpcuser=bob";
    let cfg = parse_coin_conf_text(conf, &piv());
    assert_eq!(cfg.rpc_user, "bob");
    assert_eq!(cfg.rpc_pass, "pass");
    assert_eq!(cfg.rpc_port, 51473);
}

#[test]
fn conf_bad_port_keeps_the_current_one() {
    let cfg = parse_coin_conf_text("rpcport=abc\n", &piv());
    assert_eq!(cfg.rpc_port, 51473);
    let cfg2 = parse_coin_conf_text("rpcport=70000\n", &piv());
    assert_eq!(cfg2.rpc_port, 51473);
    let cfg3 = parse_coin_conf_text("rpcport=1000\nrpcport=x\n", &piv());
    assert_eq!(cfg3.rpc_port, 1000);
}

#[test]
fn conf_later_assignments_win() {
    let cfg = parse_coin_conf_text("rpcuser=a\nrpcuser=b\n", &piv());
    assert_eq!(cfg.rpc_user, "b");
}

#[test]
fn conf_windows_line_endings_are_handled() {
    let cfg = parse_coin_conf_text("rpcuser=bob\r\nrpcport=8080\r\n", &piv());
    assert_eq!(cfg.rpc_user, "bob");
    assert_eq!(cfg.rpc_port, 8080);
}

#[test]
fn conf_value_may_hold_equals_signs() {
    let cfg = parse_coin_conf_text("rpcpassword=a=b=c\n", &piv());
    assert_eq!(cfg.rpc_pass, "a=b=c");
}

#[test]
fn port_parser_matches_std() {
    assert_eq!(parse_u16("65535"), Some(65535));
    assert_eq!(parse_u16("65536"), None);
    assert_eq!(parse_u16("+123"), Some(123));
    assert_eq!(parse_u16(""), None);
    assert_eq!(parse_u16("+"), None);
    assert_eq!(parse_u16("12a"), None);
    assert_eq!(parse_u16("0"), Some(0));
    assert_eq!(parse_u16("999999999999999999999"), None);
}
