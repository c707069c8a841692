//! Persistence records: fixed-point amounts rendered as decimal text, and
//! the append-only `coin,value,code` line format.

use crate::derivation::OptimisedPromoKeypair;
use crate::text::{
    ascii_to_lowercase, dec_bytes, digit_byte, lemma_dec_bytes_ascii, lower_chars, push_dec_bytes,
    string_from_ascii,
};
use vstd::prelude::*;

verus! {

/// One coin is 10^8 fixed-point units: amounts are carried as integers and
/// only rendered as decimals.
pub const COIN_UNITS: u64 = 100_000_000;

/// The lowest `width` decimal digits of `n`, zero padded, most significant
/// first.
pub open spec fn pad_digits(n: nat, width: nat) -> Seq<u8>
    decreases width,
{
    if width == 0 {
        Seq::empty()
    } else {
        pad_digits(n / 10, (width - 1) as nat) + seq![digit_byte((n % 10) as int)]
    }
}

/// Drops trailing zero digits.
pub open spec fn trim_zeros(s: Seq<u8>) -> Seq<u8>
    decreases s.len(),
{
    if s.len() > 0 && s.last() == 48 {
        trim_zeros(s.drop_last())
    } else {
        s
    }
}

/// The decimal text of a fixed-point amount: the whole part, and the
/// fractional digits with trailing zeros trimmed, when any are set.
pub open spec fn amount_bytes(sats: nat) -> Seq<u8> {
    let whole = sats / (COIN_UNITS as nat);
    let frac = sats % (COIN_UNITS as nat);
    if frac == 0 {
        dec_bytes(whole)
    } else {
        dec_bytes(whole) + seq![46u8] + trim_zeros(pad_digits(frac, 8))
    }
}

/// The decimal text of a fixed-point amount, as characters.
pub open spec fn amount_chars(sats: nat) -> Seq<char> {
    amount_bytes(sats).map_values(|b: u8| b as char)
}

proof fn lemma_pad_digits_ascii(n: nat, width: nat)
    ensures
        forall|i: int|
            0 <= i < pad_digits(n, width).len() ==> 48 <= #[trigger] pad_digits(n, width)[i] <= 57,
        pad_digits(n, width).len() == width,
    decreases width,
{
    if width > 0 {
        lemma_pad_digits_ascii(n / 10, (width - 1) as nat);
    }
}

proof fn lemma_trim_zeros_bounds(s: Seq<u8>)
    requires
        forall|i: int| 0 <= i < s.len() ==> 48 <= #[trigger] s[i] <= 57,
    ensures
        forall|i: int| 0 <= i < trim_zeros(s).len() ==> 48 <= #[trigger] trim_zeros(s)[i] <= 57,
    decreases s.len(),
{
    if s.len() > 0 && s.last() == 48 {
        assert(forall|i: int|
            0 <= i < s.drop_last().len() ==> 48 <= #[trigger] s.drop_last()[i] <= 57);
        lemma_trim_zeros_bounds(s.drop_last());
        assert(trim_zeros(s) == trim_zeros(s.drop_last()));
    }
}

/// Appends the lowest `width` digits of `n`, zero padded.
fn push_pad_digits(n: u64, width: u64, out: &mut Vec<u8>)
    ensures
        final(out)@ == old(out)@ + pad_digits(n as nat, width as nat),
    decreases width,
{
    if width == 0 {
        proof {
            assert(final(out)@ =~= old(out)@ + pad_digits(n as nat, width as nat));
        }
        return ;
    }
    push_pad_digits(n / 10, width - 1, out);
    out.push(48 + (n % 10) as u8);
}

/// Renders a fixed-point amount as decimal text (`1`, `0.5`, `0.0001`).
pub fn format_amount(sats: u64) -> (r: String)
    ensures
        r@ == amount_chars(sats as nat),
{
    let whole = sats / COIN_UNITS;
    let frac = sats % COIN_UNITS;
    let mut bytes: Vec<u8> = Vec::new();
    push_dec_bytes(whole, &mut bytes);
    if frac != 0 {
        bytes.push(46);
        let mut frac_bytes: Vec<u8> = Vec::new();
        push_pad_digits(frac, 8, &mut frac_bytes);
        while frac_bytes.len() > 0 && frac_bytes[frac_bytes.len() - 1] == 48
            invariant
                trim_zeros(frac_bytes@) == trim_zeros(pad_digits(frac as nat, 8)),
            decreases frac_bytes@.len(),
        {
            frac_bytes.pop();
        }
        proof {
            assert(frac_bytes@ == trim_zeros(frac_bytes@));
            lemma_pad_digits_ascii(frac as nat, 8);
            lemma_trim_zeros_bounds(pad_digits(frac as nat, 8));
        }
        let mut k: usize = 0;
        let ghost mid = bytes@;
        while k < frac_bytes.len()
            invariant
                k <= frac_bytes@.len(),
                bytes@ == mid + frac_bytes@.subrange(0, k as int),
            decreases frac_bytes@.len() - k,
        {
            let b = frac_bytes[k];
            bytes.push(b);
            proof {
                assert(bytes@ =~= mid + frac_bytes@.subrange(0, k as int + 1));
            }
            k = k + 1;
        }
        proof {
            assert(frac_bytes@.subrange(0, frac_bytes@.len() as int) =~= frac_bytes@);
            assert(bytes@ =~= amount_bytes(sats as nat));
        }
    } else {
        proof {
            assert(bytes@ =~= amount_bytes(sats as nat));
        }
    }
    proof {
        lemma_dec_bytes_ascii((sats / COIN_UNITS) as nat);
        lemma_pad_digits_ascii((sats % COIN_UNITS) as nat, 8);
        lemma_trim_zeros_bounds(pad_digits((sats % COIN_UNITS) as nat, 8));
    }
    let r = string_from_ascii(&bytes);
    proof {
        assert(r@ =~= amount_chars(sats as nat));
    }
    r
}

/// One persistence line (without its newline): lower-cased ticker, the
/// amount, and the code, comma separated.
pub open spec fn record_chars(ticker: Seq<char>, value: nat, code: Seq<char>) -> Seq<char> {
    lower_chars(ticker) + seq![','] + amount_chars(value) + seq![','] + code
}

/// Builds one persistence line for a funded code.
pub fn csv_record(ticker: &str, value: u64, code: &str) -> (r: String)
    requires
        ticker.is_ascii(),
    ensures
        r@ == record_chars(ticker@, value as nat, code@),
{
    let mut line = ascii_to_lowercase(ticker);
    line.append(",");
    let amount = format_amount(value);
    line.append(amount.as_str());
    line.append(",");
    line.append(code);
    proof {
        reveal_strlit(",");
        assert(line@ =~= record_chars(ticker@, value as nat, code@));
    }
    line
}

/// The full persistence document for a list of keypairs: the header line,
/// then one record per keypair in generation order.
pub open spec fn csv_chars(ticker: Seq<char>, promos: Seq<OptimisedPromoKeypair>) -> Seq<char>
    decreases promos.len(),
{
    if promos.len() == 0 {
        "coin,value,code,"@ + seq!['\n']
    } else {
        csv_chars(ticker, promos.drop_last()) + record_chars(
            ticker,
            promos.last().value as nat,
            promos.last().code@,
        ) + seq!['\n']
    }
}

/// Renders a whole batch as the append-only CSV document.
pub fn compile_to_csv(promos: Vec<OptimisedPromoKeypair>, coin_ticker: &str) -> (r: String)
    requires
        coin_ticker.is_ascii(),
    ensures
        r@ == csv_chars(coin_ticker@, promos@),
{
    let mut csv = String::from_str("coin,value,code,");
    csv.append("\n");
    proof {
        reveal_strlit("\n");
        assert(csv@ =~= csv_chars(coin_ticker@, promos@.subrange(0, 0)));
    }
    let mut i: usize = 0;
    while i < promos.len()
        invariant
            coin_ticker.is_ascii(),
            i <= promos@.len(),
            csv@ == csv_chars(coin_ticker@, promos@.subrange(0, i as int)),
        decreases promos@.len() - i,
    {
        let line = csv_record(coin_ticker, promos[i].value, promos[i].code.as_str());
        csv.append(line.as_str());
        csv.append("\n");
        proof {
            reveal_strlit("\n");
            let taken = promos@.subrange(0, i as int + 1);
            assert(taken.drop_last() =~= promos@.subrange(0, i as int));
            assert(taken.last() == promos@[i as int]);
            assert(csv@ =~= csv_chars(coin_ticker@, taken));
        }
        i = i + 1;
    }
    proof {
        assert(promos@.subrange(0, promos@.len() as int) =~= promos@);
    }
    csv
}

} // verus!
