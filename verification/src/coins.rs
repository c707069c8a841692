//! The immutable per-coin parameter registry: byte constants, ports and
//! fees for every supported network.

use vstd::prelude::*;

verus! {

/// A cryptocurrency's parameters.
#[derive(Clone)]
pub struct CoinParams {
    /// Name of the coin (e.g., "PIVX").
    pub name: String,
    /// Ticker symbol (e.g., "PIV").
    pub ticker: String,
    /// Configuration directory name ("PIVX" on macOS/Windows, lower-cased
    /// with a dot prefix on Linux).
    pub conf_dir_name: String,
    /// Configuration file name (e.g., "pivx.conf").
    pub conf_file_name: String,
    /// Default RPC port.
    pub default_rpc_port: u16,
    /// Public key version byte for address generation.
    pub pub_key_byte: u8,
    /// Private key version byte for the export (WIF) format.
    pub priv_key_byte: u8,
    /// The network fee paid for the redeemer client, in 1e-8 coin units.
    pub promo_fee: u64,
}

/// A well-formed coin: its ticker is ASCII and holds no record delimiter,
/// so persistence lines stay parseable.
pub open spec fn coin_wf(c: CoinParams) -> bool {
    vstd::utf8::is_ascii_chars(c.ticker@) && (forall|i: int|
        0 <= i < c.ticker@.len() ==> #[trigger] c.ticker@[i] != ',')
}

fn mk_coin(
    name: &str,
    ticker: &str,
    conf_dir_name: &str,
    conf_file_name: &str,
    default_rpc_port: u16,
    pub_key_byte: u8,
    priv_key_byte: u8,
    promo_fee: u64,
) -> (r: CoinParams)
    ensures
        r.name@ == name@,
        r.ticker@ == ticker@,
        r.conf_dir_name@ == conf_dir_name@,
        r.conf_file_name@ == conf_file_name@,
        r.default_rpc_port == default_rpc_port,
        r.pub_key_byte == pub_key_byte,
        r.priv_key_byte == priv_key_byte,
        r.promo_fee == promo_fee,
{
    CoinParams {
        name: name.to_owned(),
        ticker: ticker.to_owned(),
        conf_dir_name: conf_dir_name.to_owned(),
        conf_file_name: conf_file_name.to_owned(),
        default_rpc_port,
        pub_key_byte,
        priv_key_byte,
        promo_fee,
    }
}

/// The list of all supported coins, PIVX first.
pub fn get_supported_coins() -> (r: Vec<CoinParams>)
    ensures
        r@.len() == 6,
        forall|i: int| 0 <= i < 6 ==> coin_wf(#[trigger] r@[i]),
        r@[0].name@ == "PIVX"@ && r@[0].ticker@ == "PIV"@ && r@[0].conf_dir_name@ == "PIVX"@
            && r@[0].conf_file_name@ == "pivx.conf"@ && r@[0].default_rpc_port == 51473
            && r@[0].pub_key_byte == 30 && r@[0].priv_key_byte == 212 && r@[0].promo_fee == 10000,
        r@[1].name@ == "DogeCoin"@ && r@[1].ticker@ == "DOGE"@ && r@[1].conf_dir_name@
            == "Dogecoin"@ && r@[1].conf_file_name@ == "dogecoin.conf"@ && r@[1].default_rpc_port
            == 22555 && r@[1].pub_key_byte == 30 && r@[1].priv_key_byte == 158 && r@[1].promo_fee
            == 1000000,
        r@[2].name@ == "Metrix"@ && r@[2].ticker@ == "MRX"@ && r@[2].conf_dir_name@
            == "MetrixCoin"@ && r@[2].conf_file_name@ == "metrixcoin.conf"@
            && r@[2].default_rpc_port == 33831 && r@[2].pub_key_byte == 50 && r@[2].priv_key_byte
            == 85 && r@[2].promo_fee == 1000000,
        r@[3].name@ == "PepeCoin"@ && r@[3].ticker@ == "PEPE"@ && r@[3].conf_dir_name@
            == "Pepecoin"@ && r@[3].conf_file_name@ == "pepecoin.conf"@ && r@[3].default_rpc_port
            == 33873 && r@[3].pub_key_byte == 56 && r@[3].priv_key_byte == 158 && r@[3].promo_fee
            == 10000,
        r@[4].name@ == "StakeCubeCoin"@ && r@[4].ticker@ == "SCC"@ && r@[4].conf_dir_name@
            == "StakeCubeCoin"@ && r@[4].conf_file_name@ == "stakecubecoin.conf"@
            && r@[4].default_rpc_port == 39999 && r@[4].pub_key_byte == 125 && r@[4].priv_key_byte
            == 253 && r@[4].promo_fee == 10000,
        r@[5].name@ == "NewMNSCoin"@ && r@[5].ticker@ == "NMNSC"@ && r@[5].conf_dir_name@
            == "nMNSC"@ && r@[5].conf_file_name@ == "nmnsc.conf"@ && r@[5].default_rpc_port == 14259
            && r@[5].pub_key_byte == 53 && r@[5].priv_key_byte == 82 && r@[5].promo_fee == 10000,
{
    let mut coins: Vec<CoinParams> = Vec::new();
    coins.push(mk_coin("PIVX", "PIV", "PIVX", "pivx.conf", 51473, 30, 212, 10000));
    coins.push(mk_coin("DogeCoin", "DOGE", "Dogecoin", "dogecoin.conf", 22555, 30, 158, 1000000));
    coins.push(mk_coin("Metrix", "MRX", "MetrixCoin", "metrixcoin.conf", 33831, 50, 85, 1000000));
    coins.push(mk_coin("PepeCoin", "PEPE", "Pepecoin", "pepecoin.conf", 33873, 56, 158, 10000));
    coins.push(
        mk_coin("StakeCubeCoin", "SCC", "StakeCubeCoin", "stakecubecoin.conf", 39999, 125, 253, 10000),
    );
    coins.push(mk_coin("NewMNSCoin", "NMNSC", "nMNSC", "nmnsc.conf", 14259, 53, 82, 10000));
    proof {
        reveal_strlit("PIV");
        reveal_strlit("DOGE");
        reveal_strlit("MRX");
        reveal_strlit("PEPE");
        reveal_strlit("SCC");
        reveal_strlit("NMNSC");
    }
    coins
}

/// The ticker of the coin selected when no other choice is made.
pub const DEFAULT_COIN_TICKER: &'static str = "PIV";

/// The position of the default coin in the list: the first entry whose
/// ticker is the default ticker, or the first entry if none matches.
pub fn default_coin_index(coins: &Vec<CoinParams>) -> (r: usize)
    requires
        coins@.len() >= 1,
    ensures
        r < coins@.len(),
        (exists|i: int| 0 <= i < coins@.len() && #[trigger] coins@[i].ticker@ == "PIV"@) ==> coins@[r as int].ticker@
            == "PIV"@,
        (forall|i: int| 0 <= i < coins@.len() ==> #[trigger] coins@[i].ticker@ != "PIV"@) ==> r
            == 0,
{
    let target: String = DEFAULT_COIN_TICKER.to_owned();
    let mut i: usize = 0;
    while i < coins.len()
        invariant
            i <= coins@.len(),
            target@ == "PIV"@,
            forall|j: int| 0 <= j < i ==> #[trigger] coins@[j].ticker@ != "PIV"@,
        decreases coins@.len() - i,
    {
        if coins[i].ticker == target {
            return i;
        }
        i = i + 1;
    }
    0
}

/// Resolves a 1-based user selection into a list index, falling back to
/// the default coin when the selection is out of range.
pub fn pick_coin_index(coins: &Vec<CoinParams>, selection: usize) -> (r: usize)
    requires
        coins@.len() >= 1,
    ensures
        r < coins@.len(),
        1 <= selection <= coins@.len() ==> r == selection - 1,
{
    if 1 <= selection && selection <= coins.len() {
        selection - 1
    } else {
        default_coin_index(coins)
    }
}

} // verus!
