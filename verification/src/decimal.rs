//! Decimal rendering of integers, for failure messages that name an exit
//! code.

use vstd::prelude::*;

verus! {

/// The character of one decimal digit.
pub open spec fn digit_char(d: nat) -> char
    recommends
        d < 10,
{
    ((48 + d) as u8) as char
}

/// The decimal digits of `n`, most significant first, with no sign and no
/// leading zero (a single `0` for zero itself).
pub open spec fn dec_digits(n: nat) -> Seq<char>
    decreases n,
{
    if n < 10 {
        seq![digit_char(n)]
    } else {
        dec_digits(n / 10).push(digit_char(n % 10))
    }
}

/// The decimal rendering of a signed value: a minus sign before the
/// digits of the magnitude.
pub open spec fn dec_int(n: int) -> Seq<char> {
    if n < 0 {
        seq!['-'] + dec_digits((-n) as nat)
    } else {
        dec_digits(n as nat)
    }
}

fn digit_to_char(d: u64) -> (c: char)
    requires
        d < 10,
    ensures
        c == digit_char(d as nat),
{
    (48 + d as u8) as char
}

/// Renders an unsigned value in decimal.
pub fn u64_to_string(n: u64) -> (r: String)
    ensures
        r@ == dec_digits(n as nat),
{
    let mut rev: Vec<char> = Vec::new();
    let mut m: u64 = n;
    while m >= 10
        invariant
            dec_digits(n as nat) == dec_digits(m as nat) + rev@.reverse(),
        decreases m,
    {
        let ghost old_rev = rev@;
        let d = m % 10;
        rev.push(digit_to_char(d));
        m = m / 10;
        proof {
            assert(rev@.reverse() =~= seq![digit_char(d as nat)] + old_rev.reverse());
            assert(dec_digits(m as nat).push(digit_char(d as nat)) + old_rev.reverse()
                =~= dec_digits(m as nat) + rev@.reverse());
        }
    }
    let ghost old_rev = rev@;
    rev.push(digit_to_char(m));
    proof {
        assert(rev@.reverse() =~= seq![digit_char(m as nat)] + old_rev.reverse());
        assert(dec_digits(m as nat) + old_rev.reverse() =~= rev@.reverse());
        assert(dec_digits(n as nat) == rev@.reverse());
    }
    let mut out: Vec<char> = Vec::new();
    let mut k: usize = rev.len();
    while k > 0
        invariant
            0 <= k <= rev@.len(),
            out@.len() == rev@.len() - k,
            forall|t: int| 0 <= t < out@.len() ==> out@[t] == rev@[rev@.len() - 1 - t],
        decreases k,
    {
        k = k - 1;
        out.push(rev[k]);
    }
    proof {
        assert(out@ =~= rev@.reverse());
    }
    crate::text::chars_to_string(&out)
}

/// Renders a signed value in decimal.
pub fn i32_to_string(n: i32) -> (r: String)
    ensures
        r@ == dec_int(n as int),
{
    if n < 0 {
        let wide: i64 = n as i64;
        let mag: u64 = (-wide) as u64;
        let mut r = "-".to_owned();
        let digits = u64_to_string(mag);
        r.append(digits.as_str());
        proof {
            reveal_strlit("-");
            assert(r@ =~= seq!['-'] + dec_digits(mag as nat));
        }
        r
    } else {
        u64_to_string(n as u64)
    }
}

} // verus!
