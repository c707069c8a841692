//! Small verified text helpers: rendering integers as decimal text,
//! lower-casing ASCII, and turning ASCII bytes into a `String`.

use vstd::prelude::*;

verus! {

/// The decimal digit byte for a value below ten.
pub open spec fn digit_byte(d: int) -> u8 {
    (48 + d) as u8
}

/// The ASCII decimal representation of `n`, most significant digit first.
pub open spec fn dec_bytes(n: nat) -> Seq<u8>
    decreases n,
{
    if n < 10 {
        seq![digit_byte(n as int)]
    } else {
        dec_bytes(n / 10).push(digit_byte((n % 10) as int))
    }
}

/// The decimal representation of `n` as characters.
pub open spec fn dec_chars(n: nat) -> Seq<char> {
    dec_bytes(n).map_values(|b: u8| b as char)
}

/// Every byte of a decimal rendering is an ASCII digit.
pub proof fn lemma_dec_bytes_ascii(n: nat)
    ensures
        forall|i: int| 0 <= i < dec_bytes(n).len() ==> 48 <= #[trigger] dec_bytes(n)[i] <= 57,
    decreases n,
{
    if n < 10 {
        assert(dec_bytes(n) =~= seq![digit_byte(n as int)]);
    } else {
        lemma_dec_bytes_ascii(n / 10);
        let prev = dec_bytes(n / 10);
        let last = digit_byte((n % 10) as int);
        assert(dec_bytes(n) == prev.push(last));
        assert forall|i: int| 0 <= i < dec_bytes(n).len() implies 48 <= #[trigger] dec_bytes(
            n,
        )[i] <= 57 by {
            if i < prev.len() {
                assert(dec_bytes(n)[i] == prev[i]);
            } else {
                assert(dec_bytes(n)[i] == last);
            }
        }
    }
}

/// Appends the decimal digits of `n` to `out`.
pub fn push_dec_bytes(n: u64, out: &mut Vec<u8>)
    ensures
        final(out)@ == old(out)@ + dec_bytes(n as nat),
    decreases n,
{
    if n >= 10 {
        push_dec_bytes(n / 10, out);
    }
    out.push(48 + (n % 10) as u8);
}

/// Relies on `alloc::string::String::from_utf8`: bytes below 128 are valid
/// UTF-8 and decode to the characters with the same code points.
#[verifier::external_body]
pub(crate) fn string_from_ascii(b: &Vec<u8>) -> (r: String)
    requires
        forall|i: int| 0 <= i < b@.len() ==> b@[i] < 128,
    ensures
        r@.len() == b@.len(),
        forall|i: int| 0 <= i < b@.len() ==> r@[i] == (b@[i] as char),
{
    match String::from_utf8(b.clone()) {
        Ok(s) => s,
        Err(_) => String::new(),
    }
}

/// The decimal text for `n`.
pub fn u64_to_string(n: u64) -> (r: String)
    ensures
        r@ == dec_chars(n as nat),
{
    let mut bytes: Vec<u8> = Vec::new();
    push_dec_bytes(n, &mut bytes);
    proof {
        lemma_dec_bytes_ascii(n as nat);
    }
    let r = string_from_ascii(&bytes);
    proof {
        assert(r@ =~= dec_chars(n as nat));
    }
    r
}

/// Lower-cases an ASCII letter byte, and leaves every other byte alone.
pub open spec fn lower_byte(b: u8) -> u8 {
    if 65 <= b <= 90 {
        (b + 32) as u8
    } else {
        b
    }
}

/// The ASCII lower-casing of a character sequence.
pub open spec fn lower_chars(s: Seq<char>) -> Seq<char> {
    s.map_values(|c: char| (lower_byte(c as u8) as char))
}

/// Lower-cases an ASCII string, as the persistence format asks of tickers.
pub fn ascii_to_lowercase(s: &str) -> (r: String)
    requires
        s.is_ascii(),
    ensures
        r@ == lower_chars(s@),
{
    broadcast use vstd::string::is_ascii_spec_bytes;

    let n = s.unicode_len();
    let mut bytes: Vec<u8> = Vec::new();
    let mut i: usize = 0;
    while i < n
        invariant
            s.is_ascii(),
            n == s@.len(),
            i <= n,
            bytes@.len() == i,
            forall|j: int| 0 <= j < i ==> bytes@[j] == lower_byte(s@[j] as u8) && bytes@[j] < 128,
        decreases n - i,
    {
        let b = s.get_ascii(i);
        proof {
            vstd::utf8::is_ascii_chars_nat_bound(s@);
            assert((s@[i as int] as nat) < 128);
        }
        if 65 <= b && b <= 90 {
            bytes.push(b + 32);
        } else {
            bytes.push(b);
        }
        i = i + 1;
    }
    let r = string_from_ascii(&bytes);
    proof {
        assert forall|j: int| 0 <= j < s@.len() implies r@[j] == lower_chars(s@)[j] by {
            assert(bytes@[j] == lower_byte(s@[j] as u8));
        }
        assert(r@ =~= lower_chars(s@));
    }
    r
}

} // verus!
