//! Writing integers in decimal.

use vstd::prelude::*;

verus! {

pub open spec fn digit_chars() -> Seq<char> {
    seq!['0', '1', '2', '3', '4', '5', '6', '7', '8', '9']
}

/// The decimal digits of `n`, most significant first, without leading zeros.
pub open spec fn nat_decimal(n: nat) -> Seq<char>
    decreases n,
{
    if n < 10 {
        seq![digit_chars()[n as int]]
    } else {
        nat_decimal(n / 10).push(digit_chars()[(n % 10) as int])
    }
}

/// `n` in decimal, with a leading `-` when it is negative (as `to_string` writes it).
pub open spec fn int_decimal(n: int) -> Seq<char> {
    if n < 0 {
        seq!['-'] + nat_decimal((-n) as nat)
    } else {
        nat_decimal(n as nat)
    }
}

/// The one-character text of digit `d`.
fn digit_text(d: u64) -> (s: &'static str)
    requires
        d < 10,
    ensures
        s@ == seq![digit_chars()[d as int]],
{
    let all = "0123456789";
    proof {
        reveal_strlit("0123456789");
    }
    let s = all.substring_char(d as usize, (d + 1) as usize);
    assert(s@ =~= seq![digit_chars()[d as int]]);
    s
}

/// Appends the decimal digits of `m` to `out`.
fn write_decimal(m: u64, out: &mut String)
    ensures
        final(out)@ == old(out)@ + nat_decimal(m as nat),
    decreases m,
{
    if m >= 10 {
        write_decimal(m / 10, out);
    }
    let d = digit_text(m % 10);
    out.append(d);
    assert(final(out)@ =~= old(out)@ + nat_decimal(m as nat));
}

/// `n` written in decimal (see `int_decimal`).
pub fn i64_to_decimal(n: i64) -> (s: String)
    ensures
        s@ == int_decimal(n as int),
{
    let mut s = String::new();
    if n < 0 {
        s.append("-");
        proof {
            reveal_strlit("-");
        }
        let wide: i128 = n as i128;
        let magnitude: u64 = (0i128 - wide) as u64;
        write_decimal(magnitude, &mut s);
        assert(s@ =~= int_decimal(n as int));
    } else {
        write_decimal(n as u64, &mut s);
        assert(s@ =~= int_decimal(n as int));
    }
    s
}

} // verus!
