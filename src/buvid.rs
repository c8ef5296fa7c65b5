//! Generation of the browser id (`buvid3`) that the web client presents.
use vstd::prelude::*;
use vstd::string::StringExecFns;
use crate::outbound::{append_decimal, decimal};

verus! {

/// Relies on `rand::random`: any value of `T` may come back.
pub assume_specification<T>[ rand::random::<T> ]() -> (r: T)
    where
        rand::distributions::Standard: rand::distributions::Distribution<T>,
;

/// Whether `c` is an upper-case hexadecimal digit.
pub open spec fn is_hex_upper(c: char) -> bool {
    ('0' <= c && c <= '9') || ('A' <= c && c <= 'F')
}

/// Whether `c` is a decimal digit.
pub open spec fn is_digit(c: char) -> bool {
    '0' <= c && c <= '9'
}

/// The upper-case hexadecimal digit for `v < 16`.
pub fn hex_digit(v: u8) -> (r: &'static str)
    requires
        v < 16,
    ensures
        r@.len() == 1,
        is_hex_upper(r@[0]),
{
    let digits = ["0", "1", "2", "3", "4", "5", "6", "7", "8", "9", "A", "B", "C", "D", "E", "F"];
    proof {
        reveal_strlit("0");
        reveal_strlit("1");
        reveal_strlit("2");
        reveal_strlit("3");
        reveal_strlit("4");
        reveal_strlit("5");
        reveal_strlit("6");
        reveal_strlit("7");
        reveal_strlit("8");
        reveal_strlit("9");
        reveal_strlit("A");
        reveal_strlit("B");
        reveal_strlit("C");
        reveal_strlit("D");
        reveal_strlit("E");
        reveal_strlit("F");
    }
    digits[v as usize]
}

/// `len` random upper-case hexadecimal digits.
pub fn gen_hex(len: u32) -> (r: String)
    ensures
        r@.len() == len,
        forall|i: int| 0 <= i < len ==> is_hex_upper(#[trigger] r@[i]),
{
    let mut hex = String::new();
    let mut n: u32 = 0;
    while n < len
        invariant
            n <= len,
            hex@.len() == n,
            forall|i: int| 0 <= i < n ==> is_hex_upper(#[trigger] hex@[i]),
        decreases len - n,
    {
        let value = rand::random::<u8>() % 16;
        let ghost before = hex@;
        let d = hex_digit(value);
        hex.append(d);
        assert(hex@ =~= before + d@);
        assert(hex@[n as int] == d@[0]);
        n += 1;
    }
    hex
}

/// The number of decimal digits of `n < 10000`.
pub fn decimal_len(n: u64) -> (r: usize)
    requires
        n < 10000,
    ensures
        r == decimal(n as nat).len(),
        r <= 4,
    decreases n,
{
    proof {
        lemma_decimal_len_bound(n as nat);
    }
    if n < 10 {
        1
    } else {
        decimal_len(n / 10) + 1
    }
}

/// `s` written with leading zeros up to `width` characters.
pub open spec fn zero_padded(s: Seq<char>, width: nat) -> Seq<char> {
    Seq::new((width - s.len()) as nat, |i: int| '0') + s
}

/// The last four decimal digits of the time `secs`, padded with zeros to five.
pub open spec fn ts_text(secs: u64) -> Seq<char> {
    zero_padded(decimal((secs % 10000) as nat), 5)
}

/// The last four decimal digits of the time `secs`, padded with zeros to five.
pub fn ts_suffix(secs: u64) -> (r: String)
    ensures
        r@ == ts_text(secs),
{
    let remain = secs % 10000;
    let len = decimal_len(remain);
    let mut s = String::new();
    let mut k: usize = len;
    while k < 5
        invariant
            len <= k <= 5,
            s@ == Seq::new((k - len) as nat, |i: int| '0'),
        decreases 5 - k,
    {
        proof {
            reveal_strlit("0");
        }
        s.append("0");
        assert(s@ =~= Seq::new((k + 1 - len) as nat, |i: int| '0'));
        k += 1;
    }
    append_decimal(&mut s, remain);
    assert(s@ =~= zero_padded(decimal(remain as nat), 5));
    s
}

proof fn lemma_decimal_len_bound(n: nat)
    requires
        n < 10000,
    ensures
        decimal(n).len() <= 4,
{
    reveal_with_fuel(decimal, 5);
    assert(n / 10 / 10 / 10 / 10 == 0);
}

/// Relies on `SystemTime::duration_since(UNIX_EPOCH)` applied to
/// `SystemTime::now()`: the whole seconds since the Unix epoch, or `None` for a
/// clock set before it.
#[verifier::external_body]
fn unix_time_secs() -> (r: Option<u64>) {
    std::time::SystemTime::now().duration_since(std::time::UNIX_EPOCH).ok().map(|d| d.as_secs())
}

/// The time part of a browser id: the last four digits of the current Unix
/// time in seconds, padded with zeros to five (`00000` for a clock set before
/// the epoch).
pub fn gen_ts() -> (r: String)
    ensures
        exists|secs: u64| r@ == #[trigger] ts_text(secs),
{
    let secs = match unix_time_secs() {
        Some(s) => s,
        None => 0,
    };
    ts_suffix(secs)
}

/// Whether `s` has the shape of a browser id: `XXXXXXXX-XXXX-XXXX-XXXX-`,
/// twelve more hexadecimal digits, five decimal digits and `infoc`.
pub open spec fn is_buvid3(s: Seq<char>) -> bool {
    &&& s.len() == 46
    &&& s[8] == '-' && s[13] == '-' && s[18] == '-' && s[23] == '-'
    &&& forall|i: int|
        0 <= i < 36 && i != 8 && i != 13 && i != 18 && i != 23 ==> is_hex_upper(#[trigger] s[i])
    &&& forall|i: int| 36 <= i < 41 ==> is_digit(#[trigger] s[i])
    &&& s.subrange(41, 46) == "infoc"@
}

/// A fresh random browser id, whose digits are the last four digits of the
/// current Unix time padded to five.
pub fn gen_buvid3() -> (r: String)
    ensures
        is_buvid3(r@),
        exists|secs: u64| r@.subrange(36, 41) == #[trigger] ts_text(secs),
{
    proof {
        reveal_strlit("-");
        reveal_strlit("infoc");
    }
    let a = gen_hex(8);
    let b = gen_hex(4);
    let c = gen_hex(4);
    let d = gen_hex(4);
    let e = gen_hex(12);
    let t = gen_ts();
    let mut s = String::new();
    s.append(a.as_str());
    s.append("-");
    s.append(b.as_str());
    s.append("-");
    s.append(c.as_str());
    s.append("-");
    s.append(d.as_str());
    s.append("-");
    s.append(e.as_str());
    s.append(t.as_str());
    s.append("infoc");
    proof {
        let secs = choose|secs: u64| t@ == #[trigger] ts_text(secs);
        lemma_decimal_digits((secs % 10000) as nat);
        lemma_decimal_len_bound((secs % 10000) as nat);
        assert(t@.len() == 5);
        assert forall|i: int| 0 <= i < 5 implies is_digit(#[trigger] t@[i]) by {
            let dec = decimal((secs % 10000) as nat);
            let pad = (5 - dec.len()) as nat;
            if i >= pad {
                assert(t@[i] == dec[i - pad]);
            }
        }
        assert(s@ =~= a@ + "-"@ + b@ + "-"@ + c@ + "-"@ + d@ + "-"@ + e@ + t@ + "infoc"@);
        assert forall|i: int|
            0 <= i < 36 && i != 8 && i != 13 && i != 18 && i != 23 implies is_hex_upper(
            #[trigger] s@[i],
        ) by {
            if i < 8 {
                assert(s@[i] == a@[i]);
            } else if i < 13 {
                assert(s@[i] == b@[i - 9]);
            } else if i < 18 {
                assert(s@[i] == c@[i - 14]);
            } else if i < 23 {
                assert(s@[i] == d@[i - 19]);
            } else {
                assert(s@[i] == e@[i - 24]);
            }
        }
        assert forall|i: int| 36 <= i < 41 implies is_digit(#[trigger] s@[i]) by {
            assert(s@[i] == t@[i - 36]);
        }
        assert(s@.subrange(41, 46) =~= "infoc"@);
        assert(s@.subrange(36, 41) =~= t@);
    }
    s
}

proof fn lemma_decimal_digits(n: nat)
    ensures
        forall|i: int| 0 <= i < decimal(n).len() ==> is_digit(#[trigger] decimal(n)[i]),
    decreases n,
{
    if n >= 10 {
        lemma_decimal_digits(n / 10);
        assert forall|i: int| 0 <= i < decimal(n).len() implies is_digit(
            #[trigger] decimal(n)[i],
        ) by {
            if i < decimal(n / 10).len() {
                assert(decimal(n)[i] == decimal(n / 10)[i]);
            }
        }
    }
}

} // verus!
