//! Verified rendering of numbers into the short texts a discovery carries.
//!
//! Only two shapes are needed: plain decimal for counters, and a
//! two-decimal rendering of a fixed-point scalar for the surprise figure.

use vstd::prelude::*;
use vstd::string::StringExecFns;
use crate::fixed::SCALE;

verus! {

/// The character of one decimal digit.
pub open spec fn digit_char_spec(d: int) -> char {
    if d == 0 {
        '0'
    } else if d == 1 {
        '1'
    } else if d == 2 {
        '2'
    } else if d == 3 {
        '3'
    } else if d == 4 {
        '4'
    } else if d == 5 {
        '5'
    } else if d == 6 {
        '6'
    } else if d == 7 {
        '7'
    } else if d == 8 {
        '8'
    } else {
        '9'
    }
}

/// Decimal digits of a nonnegative number, most significant first.
pub open spec fn dec_spec(n: int) -> Seq<char>
    decreases n when n >= 0
{
    if n <= 9 {
        seq![digit_char_spec(n)]
    } else {
        dec_spec(n / 10).push(digit_char_spec(n % 10))
    }
}

/// Two-decimal rendering of a nonnegative fixed-point scalar: whole units,
/// a point, then hundredths.
pub open spec fn two_dec_spec(n: int) -> Seq<char> {
    let whole = n / (SCALE as int);
    let cents = (n % (SCALE as int)) / 10_000;
    dec_spec(whole).push('.').push(digit_char_spec(cents / 10)).push(
        digit_char_spec(cents % 10),
    )
}

/// Append one decimal digit.
fn push_digit(s: &mut String, d: u64)
    requires
        d <= 9,
    ensures
        final(s)@ == old(s)@.push(digit_char_spec(d as int)),
{
    if d == 0 {
        proof {
            reveal_strlit("0");
        }
        s.append("0");
    } else if d == 1 {
        proof {
            reveal_strlit("1");
        }
        s.append("1");
    } else if d == 2 {
        proof {
            reveal_strlit("2");
        }
        s.append("2");
    } else if d == 3 {
        proof {
            reveal_strlit("3");
        }
        s.append("3");
    } else if d == 4 {
        proof {
            reveal_strlit("4");
        }
        s.append("4");
    } else if d == 5 {
        proof {
            reveal_strlit("5");
        }
        s.append("5");
    } else if d == 6 {
        proof {
            reveal_strlit("6");
        }
        s.append("6");
    } else if d == 7 {
        proof {
            reveal_strlit("7");
        }
        s.append("7");
    } else if d == 8 {
        proof {
            reveal_strlit("8");
        }
        s.append("8");
    } else {
        proof {
            reveal_strlit("9");
        }
        s.append("9");
    }
    proof {
        assert(final(s)@ =~= old(s)@.push(digit_char_spec(d as int)));
    }
}

/// Append the decimal digits of a number.
pub fn push_u64(s: &mut String, n: u64)
    ensures
        final(s)@ == old(s)@ + dec_spec(n as int),
    decreases n,
{
    if n <= 9 {
        push_digit(s, n);
        proof {
            assert(final(s)@ =~= old(s)@ + dec_spec(n as int));
        }
    } else {
        push_u64(s, n / 10);
        push_digit(s, n % 10);
        proof {
            assert(final(s)@ =~= old(s)@ + dec_spec(n as int));
        }
    }
}

/// Append the two-decimal rendering of a nonnegative fixed-point scalar.
pub fn push_two_dec(s: &mut String, n: u64)
    ensures
        final(s)@ == old(s)@ + two_dec_spec(n as int),
{
    push_u64(s, n / (SCALE as u64));
    proof {
        reveal_strlit(".");
    }
    s.append(".");
    let cents: u64 = (n % (SCALE as u64)) / 10_000;
    push_digit(s, cents / 10);
    push_digit(s, cents % 10);
    proof {
        assert(final(s)@ =~= old(s)@ + two_dec_spec(n as int));
    }
}

} // verus!
