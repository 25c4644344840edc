//! Verified building blocks for the strings the library produces: decimal
//! numbers and uppercase hexadecimal digits.

use vstd::prelude::*;
use vstd::string::StringExecFns;

verus! {

/// The decimal digit character for a value in `[0, 9]`.
pub open spec fn digit_char(d: int) -> char {
    if d == 0 {
        '0'
    } else if d == 1 {
        '1'
    } else if d == 2 {
        '2'
    } else if d == 3 {
        '3'
    } else if d == 4 {
        '4'
    } else if d == 5 {
        '5'
    } else if d == 6 {
        '6'
    } else if d == 7 {
        '7'
    } else if d == 8 {
        '8'
    } else {
        '9'
    }
}

/// The uppercase hexadecimal digit character for a value in `[0, 15]`.
pub open spec fn hex_digit_char(d: int) -> char {
    if d < 10 {
        digit_char(d)
    } else if d == 10 {
        'A'
    } else if d == 11 {
        'B'
    } else if d == 12 {
        'C'
    } else if d == 13 {
        'D'
    } else if d == 14 {
        'E'
    } else {
        'F'
    }
}

/// The decimal representation of a nonnegative number, most significant
/// digit first, without leading zeros (`0` itself is the single digit `0`).
pub open spec fn dec_str(n: nat) -> Seq<char>
    decreases n,
{
    if n < 10 {
        seq![digit_char(n as int)]
    } else {
        dec_str(n / 10).push(digit_char((n % 10) as int))
    }
}

/// Appends the single decimal digit character for `d` to `s`.
fn push_digit(s: &mut String, d: u32)
    requires
        d <= 9,
    ensures
        final(s)@ == old(s)@.push(digit_char(d as int)),
{
    let lit: &str = match d {
        0 => "0",
        1 => "1",
        2 => "2",
        3 => "3",
        4 => "4",
        5 => "5",
        6 => "6",
        7 => "7",
        8 => "8",
        _ => "9",
    };
    proof {
        reveal_strlit("0");
        reveal_strlit("1");
        reveal_strlit("2");
        reveal_strlit("3");
        reveal_strlit("4");
        reveal_strlit("5");
        reveal_strlit("6");
        reveal_strlit("7");
        reveal_strlit("8");
        reveal_strlit("9");
    }
    s.append(lit);
    proof {
        assert(final(s)@ =~= old(s)@.push(digit_char(d as int)));
    }
}

/// Appends the uppercase hexadecimal digit character for `d` to `s`.
fn push_hex_digit(s: &mut String, d: u32)
    requires
        d <= 15,
    ensures
        final(s)@ == old(s)@.push(hex_digit_char(d as int)),
{
    if d <= 9 {
        push_digit(s, d);
    } else {
        let lit: &str = match d {
            10 => "A",
            11 => "B",
            12 => "C",
            13 => "D",
            14 => "E",
            _ => "F",
        };
        proof {
            reveal_strlit("A");
            reveal_strlit("B");
            reveal_strlit("C");
            reveal_strlit("D");
            reveal_strlit("E");
            reveal_strlit("F");
        }
        s.append(lit);
        proof {
            assert(final(s)@ =~= old(s)@.push(hex_digit_char(d as int)));
        }
    }
}

/// Appends the decimal representation of `n` to `s`.
pub fn push_u32(s: &mut String, n: u32)
    ensures
        final(s)@ == old(s)@ + dec_str(n as nat),
    decreases n,
{
    if n < 10 {
        push_digit(s, n);
        proof {
            assert(final(s)@ =~= old(s)@ + dec_str(n as nat));
        }
    } else {
        push_u32(s, n / 10);
        push_digit(s, n % 10);
        proof {
            assert(final(s)@ =~= old(s)@ + dec_str(n as nat));
        }
    }
}

/// A `1/10200` fraction as a decimal with exactly two places, rounded half
/// away from zero (`5100` prints as `0.50`).
pub open spec fn frac2_str(u: int) -> Seq<char> {
    let h100 = (u * 100 + 5100) / 10200;
    dec_str((h100 / 100) as nat) + seq!['.'] + seq![
        digit_char(h100 / 10 % 10),
        digit_char(h100 % 10),
    ]
}

/// Appends the two-place decimal form of a `1/10200` fraction to `s`.
pub fn push_frac2(s: &mut String, u: u32)
    requires
        u <= 10200,
    ensures
        final(s)@ == old(s)@ + frac2_str(u as int),
{
    let h100 = (u * 100 + 5100) / 10200;
    push_u32(s, h100 / 100);
    s.append(".");
    push_u32(s, h100 / 10 % 10);
    push_u32(s, h100 % 10);
    proof {
        reveal_strlit(".");
        assert(final(s)@ =~= old(s)@ + frac2_str(u as int));
    }
}

/// Relies on String::push: appends exactly the one character.
#[verifier::external_body]
pub fn push_char(s: &mut String, c: char)
    ensures
        final(s)@ == old(s)@.push(c),
{
    s.push(c);
}

/// Whether two string slices hold the same characters.
pub fn str_eq(a: &str, b: &str) -> (r: bool)
    ensures
        r == (a@ == b@),
{
    let n = a.unicode_len();
    let m = b.unicode_len();
    if n != m {
        return false;
    }
    let mut i: usize = 0;
    while i < n
        invariant
            0 <= i <= n,
            n == a@.len(),
            n == b@.len(),
            forall|j: int| 0 <= j < i ==> a@[j] == b@[j],
        decreases n - i,
    {
        if a.get_char(i) != b.get_char(i) {
            return false;
        }
        i += 1;
    }
    proof {
        assert(a@ =~= b@);
    }
    true
}

/// The two-digit uppercase hexadecimal representation of a byte.
pub open spec fn hex_pair(n: int) -> Seq<char> {
    seq![hex_digit_char(n / 16), hex_digit_char(n % 16)]
}

/// Appends the two-digit uppercase hexadecimal representation of `n` to `s`.
pub fn push_hex_byte(s: &mut String, n: u8)
    ensures
        final(s)@ == old(s)@ + hex_pair(n as int),
{
    push_hex_digit(s, (n as u32) / 16);
    push_hex_digit(s, (n as u32) % 16);
    proof {
        assert(final(s)@ =~= old(s)@ + hex_pair(n as int));
    }
}

} // verus!
