//! Parsing of the coin daemon's key-value configuration text: recognized
//! keys set the RPC credentials and port, everything else is ignored, and
//! missing keys keep their defaults.

use crate::coins::CoinParams;
use vstd::prelude::*;

verus! {

/// The RPC credentials and port the funding gateway is reached with.
pub struct RpcConfig {
    /// RPC user name.
    pub rpc_user: String,
    /// RPC password.
    pub rpc_pass: String,
    /// RPC port.
    pub rpc_port: u16,
}

/// The index of the first occurrence of `c` in `s`, or -1.
pub open spec fn find_char(s: Seq<char>, c: char) -> int
    decreases s.len(),
{
    if s.len() == 0 {
        -1
    } else if s[0] == c {
        0
    } else {
        let r = find_char(s.drop_first(), c);
        if r < 0 {
            -1
        } else {
            r + 1
        }
    }
}

proof fn lemma_find_char_at(s: Seq<char>, c: char, i: int)
    requires
        0 <= i < s.len(),
        s[i] == c,
        forall|k: int| 0 <= k < i ==> s[k] != c,
    ensures
        find_char(s, c) == i,
    decreases i,
{
    if i > 0 {
        lemma_find_char_at(s.drop_first(), c, i - 1);
    }
}

proof fn lemma_find_char_none(s: Seq<char>, c: char)
    requires
        forall|k: int| 0 <= k < s.len() ==> s[k] != c,
    ensures
        find_char(s, c) == -1,
    decreases s.len(),
{
    if s.len() > 0 {
        lemma_find_char_none(s.drop_first(), c);
    }
}

/// The text split at newlines, as `str::lines` does it: a trailing
/// newline opens no further line.
pub open spec fn split_lines(s: Seq<char>) -> Seq<Seq<char>>
    decreases s.len(),
{
    if s.len() == 0 {
        Seq::empty()
    } else {
        let j = find_char(s, '\n');
        if 0 <= j < s.len() {
            seq![s.subrange(0, j)] + split_lines(s.subrange(j + 1, s.len() as int))
        } else {
            seq![s]
        }
    }
}

/// Drops a carriage return left at the end of a line.
pub open spec fn strip_cr(line: Seq<char>) -> Seq<char> {
    if line.len() > 0 && line.last() == '\r' {
        line.drop_last()
    } else {
        line
    }
}

/// A non-empty run of decimal digits.
pub open spec fn is_dec_digits(s: Seq<char>) -> bool {
    s.len() > 0 && (forall|i: int| 0 <= i < s.len() ==> '0' <= #[trigger] s[i] <= '9')
}

/// The value of a run of decimal digits.
pub open spec fn digits_val(s: Seq<char>) -> nat
    decreases s.len(),
{
    if s.len() == 0 {
        0
    } else {
        (digits_val(s.drop_last()) * 10 + (s.last() as int - 48)) as nat
    }
}

/// What `str::parse::<u16>` accepts: an optional leading `+`, then
/// decimal digits whose value fits.
pub open spec fn parse_u16_spec(s: Seq<char>) -> Option<u16> {
    let t = if s.len() > 0 && s[0] == '+' {
        s.drop_first()
    } else {
        s
    };
    if is_dec_digits(t) && digits_val(t) <= 65535 {
        Some(digits_val(t) as u16)
    } else {
        None
    }
}

/// Parses a decimal port number.
pub fn parse_u16(s: &str) -> (r: Option<u16>)
    ensures
        r == parse_u16_spec(s@),
{
    let n = s.unicode_len();
    let start: usize = if n > 0 && s.get_char(0) == '+' {
        1
    } else {
        0
    };
    proof {
        if start == 1 {
            assert(s@.drop_first() =~= s@.subrange(1, n as int));
        } else {
            assert(s@ =~= s@.subrange(0, n as int));
        }
    }
    if start >= n {
        return None;
    }
    let mut acc: u64 = 0;
    let mut overflow: bool = false;
    let mut i: usize = start;
    while i < n
        invariant
            n == s@.len(),
            start <= i <= n,
            start <= 1,
            (if s@.len() > 0 && s@[0] == '+' {
                s@.drop_first()
            } else {
                s@
            }) =~= s@.subrange(start as int, n as int),
            forall|k: int| start <= k < i ==> '0' <= #[trigger] s@[k] <= '9',
            !overflow ==> acc == digits_val(s@.subrange(start as int, i as int)) && acc <= 65535,
            overflow ==> digits_val(s@.subrange(start as int, i as int)) > 65535,
        decreases n - i,
    {
        let c = s.get_char(i);
        let u = c as u32;
        if u < 48 || u > 57 {
            proof {
                let t = if s@.len() > 0 && s@[0] == '+' {
                    s@.drop_first()
                } else {
                    s@
                };
                assert(t =~= s@.subrange(start as int, n as int));
                assert(t[i - start] == s@[i as int]);
                assert(!('0' <= t[i - start] <= '9'));
                assert(!is_dec_digits(t));
            }
            return None;
        }
        let d = (u - 48) as u64;
        proof {
            let pre = s@.subrange(start as int, i as int);
            let cur = s@.subrange(start as int, i as int + 1);
            assert(cur.drop_last() =~= pre);
            assert(cur.last() == s@[i as int]);
        }
        if overflow {
            assert(digits_val(s@.subrange(start as int, i as int + 1)) > 65535) by {
                let pre = s@.subrange(start as int, i as int);
                assert(digits_val(pre) > 65535);
            }
        } else {
            let next = acc * 10 + d;
            if next > 65535 {
                overflow = true;
            } else {
                acc = next;
            }
        }
        i = i + 1;
    }
    let ghost t = s@.subrange(start as int, n as int);
    proof {
        assert(is_dec_digits(t));
    }
    if overflow {
        None
    } else {
        Some(acc as u16)
    }
}

/// One configuration line applied to the current settings: the text before
/// the first `=` picks the key, the rest is its value; unrecognized keys
/// and an unparseable port change nothing.
pub open spec fn apply_line(cfg: (Seq<char>, Seq<char>, u16), line: Seq<char>) -> (
    Seq<char>,
    Seq<char>,
    u16,
) {
    let j = find_char(line, '=');
    if !(0 <= j < line.len()) {
        cfg
    } else {
        let key = line.subrange(0, j);
        let val = line.subrange(j + 1, line.len() as int);
        if key == "rpcuser"@ {
            (val, cfg.1, cfg.2)
        } else if key == "rpcpassword"@ {
            (cfg.0, val, cfg.2)
        } else if key == "rpcport"@ {
            match parse_u16_spec(val) {
                Some(p) => (cfg.0, cfg.1, p),
                None => cfg,
            }
        } else {
            cfg
        }
    }
}

/// The settings after every line is applied in order, each with a
/// trailing carriage return stripped first.
pub open spec fn conf_fold(cfg: (Seq<char>, Seq<char>, u16), lines: Seq<Seq<char>>) -> (
    Seq<char>,
    Seq<char>,
    u16,
)
    decreases lines.len(),
{
    if lines.len() == 0 {
        cfg
    } else {
        conf_fold(apply_line(cfg, strip_cr(lines[0])), lines.drop_first())
    }
}

/// The settings a configuration text yields for a coin: the defaults
/// (`user`, `pass`, the coin's port), overridden by the recognized keys.
pub open spec fn conf_of(contents: Seq<char>, coin: CoinParams) -> (Seq<char>, Seq<char>, u16) {
    conf_fold(("user"@, "pass"@, coin.default_rpc_port), split_lines(contents))
}

/// Parses a coin daemon's configuration text into the RPC settings,
/// falling back to the defaults for anything missing.
pub fn parse_coin_conf_text(contents: &str, coin_params: &CoinParams) -> (r: RpcConfig)
    ensures
        (r.rpc_user@, r.rpc_pass@, r.rpc_port) == conf_of(contents@, *coin_params),
{
    let mut user = String::from_str("user");
    let mut pass = String::from_str("pass");
    let mut port: u16 = coin_params.default_rpc_port;
    let n = contents.unicode_len();
    let mut pos: usize = 0;
    proof {
        assert(contents@.subrange(0, n as int) =~= contents@);
    }
    while pos < n
        invariant
            n == contents@.len(),
            pos <= n,
            conf_fold(
                (user@, pass@, port),
                split_lines(contents@.subrange(pos as int, n as int)),
            ) == conf_of(contents@, *coin_params),
        decreases n - pos,
    {
        let ghost cfg0 = (user@, pass@, port);
        let mut end: usize = pos;
        while end < n && contents.get_char(end) != '\n'
            invariant
                n == contents@.len(),
                pos <= end <= n,
                forall|k: int| pos <= k < end ==> contents@[k] != '\n',
            decreases n - end,
        {
            end = end + 1;
        }
        let line: &str = contents.substring_char(pos, end);
        let ghost tail = contents@.subrange(pos as int, n as int);
        proof {
            if end < n {
                assert(tail[end - pos as int] == contents@[end as int]);
                assert forall|k: int| 0 <= k < end - pos as int implies tail[k] != '\n' by {
                    assert(tail[k] == contents@[pos + k]);
                }
                lemma_find_char_at(tail, '\n', end - pos as int);
                assert(tail.subrange(0, end - pos as int) =~= line@);
                assert(tail.subrange(end - pos as int + 1, tail.len() as int) =~= contents@.subrange(
                    end as int + 1,
                    n as int,
                ));
                assert(split_lines(tail) == seq![line@] + split_lines(
                    contents@.subrange(end as int + 1, n as int),
                ));
                assert((seq![line@] + split_lines(contents@.subrange(end as int + 1, n as int)))[0]
                    == line@);
                assert((seq![line@] + split_lines(
                    contents@.subrange(end as int + 1, n as int),
                )).drop_first() =~= split_lines(contents@.subrange(end as int + 1, n as int)));
            } else {
                assert forall|k: int| 0 <= k < tail.len() implies tail[k] != '\n' by {
                    assert(tail[k] == contents@[pos + k]);
                }
                lemma_find_char_none(tail, '\n');
                assert(tail =~= line@);
                assert(split_lines(tail) == seq![line@]);
                assert((seq![line@])[0] == line@);
                assert((seq![line@]).drop_first() =~= Seq::<Seq<char>>::empty());
            }
        }
        // strip a trailing carriage return, as `str::lines` does
        let lend = line.unicode_len();
        let line2: &str = if lend > 0 && line.get_char(lend - 1) == '\r' {
            let stripped = line.substring_char(0, lend - 1);
            proof {
                assert(stripped@ =~= strip_cr(line@));
            }
            stripped
        } else {
            line
        };
        proof {
            assert(line2@ == strip_cr(line@));
        }
        // split the line at its first `=`
        let m = line2.unicode_len();
        let mut eq: usize = 0;
        while eq < m && line2.get_char(eq) != '='
            invariant
                m == line2@.len(),
                eq <= m,
                forall|k: int| 0 <= k < eq ==> line2@[k] != '=',
            decreases m - eq,
        {
            eq = eq + 1;
        }
        if eq < m {
            proof {
                lemma_find_char_at(line2@, '=', eq as int);
            }
            let key = line2.substring_char(0, eq).to_owned();
            let val: &str = line2.substring_char(eq + 1, m);
            if key == String::from_str("rpcuser") {
                user = val.to_owned();
            } else if key == String::from_str("rpcpassword") {
                pass = val.to_owned();
            } else if key == String::from_str("rpcport") {
                match parse_u16(val) {
                    Some(p) => { port = p },
                    None => {},
                }
            }
            proof {
                assert((user@, pass@, port) == apply_line(cfg0, strip_cr(line@)));
            }
        } else {
            proof {
                lemma_find_char_none(line2@, '=');
                assert((user@, pass@, port) == apply_line(cfg0, strip_cr(line@)));
            }
        }
        pos = if end < n {
            end + 1
        } else {
            n
        };
        proof {
            if pos == n {
                assert(contents@.subrange(n as int, n as int) =~= Seq::<char>::empty());
            }
        }
    }
    proof {
        assert(contents@.subrange(n as int, n as int) =~= Seq::<char>::empty());
    }
    RpcConfig { rpc_user: user, rpc_pass: pass, rpc_port: port }
}

} // verus!
