//! Decimal rendering of canonical residues.
//!
//! The element type renders as its residue in base ten: no sign, and no
//! leading zeros beyond the literal value zero. The specification
//! [`decimal_seq`] defines that text as a sequence of digit characters, and
//! [`u64_to_decimal`] is proved to produce exactly it.

use vstd::prelude::*;

verus! {

/// The character for one decimal digit.
pub open spec fn decimal_digit(d: int) -> char {
    if d == 0 {
        '0'
    } else if d == 1 {
        '1'
    } else if d == 2 {
        '2'
    } else if d == 3 {
        '3'
    } else if d == 4 {
        '4'
    } else if d == 5 {
        '5'
    } else if d == 6 {
        '6'
    } else if d == 7 {
        '7'
    } else if d == 8 {
        '8'
    } else {
        '9'
    }
}

/// The decimal text of `n`: the digits of `n / 10` (when any) followed by
/// the digit of `n % 10`.
pub open spec fn decimal_seq(n: nat) -> Seq<char>
    decreases n,
{
    if n < 10 {
        seq![decimal_digit(n as int)]
    } else {
        decimal_seq(n / 10).push(decimal_digit((n % 10) as int))
    }
}

/// The one-character string for a single decimal digit.
fn digit_str(d: u64) -> (r: &'static str)
    requires
        d < 10,
    ensures
        r@ == seq![decimal_digit(d as int)],
{
    proof {
        reveal_strlit("0");
        reveal_strlit("1");
        reveal_strlit("2");
        reveal_strlit("3");
        reveal_strlit("4");
        reveal_strlit("5");
        reveal_strlit("6");
        reveal_strlit("7");
        reveal_strlit("8");
        reveal_strlit("9");
    }
    let r = match d {
        0 => "0",
        1 => "1",
        2 => "2",
        3 => "3",
        4 => "4",
        5 => "5",
        6 => "6",
        7 => "7",
        8 => "8",
        _ => "9",
    };
    proof {
        assert(r@ =~= seq![decimal_digit(d as int)]);
    }
    r
}

/// Renders `n` in decimal, most significant digit first.
pub fn u64_to_decimal(n: u64) -> (s: String)
    ensures
        s@ == decimal_seq(n as nat),
{
    let first = digit_str(n % 10);
    let mut s = String::new();
    s.append(first);
    let mut m: u64 = n / 10;
    proof {
        if n >= 10 {
            assert(decimal_seq(n as nat) =~= decimal_seq((n / 10) as nat) + s@);
        }
    }
    while m > 0
        invariant
            m > 0 ==> decimal_seq(n as nat) == decimal_seq(m as nat) + s@,
            m == 0 ==> decimal_seq(n as nat) == s@,
        decreases m,
    {
        let ghost s_old = s@;
        let ghost m_old = m as nat;
        let digit = digit_str(m % 10);
        let mut joined = String::new();
        joined.append(digit);
        joined.append(s.as_str());
        s = joined;
        m = m / 10;
        proof {
            if m_old >= 10 {
                assert(decimal_seq(m_old) + s_old =~= decimal_seq(m_old / 10) + s@);
            } else {
                assert(decimal_seq(m_old) + s_old =~= s@);
            }
        }
    }
    s
}

} // verus!
