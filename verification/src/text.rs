//! Building text: decimal numbers and string pieces.

use vstd::prelude::*;
use vstd::string::*;

verus! {

/// `String::push`.
#[verifier::external_body]
pub(crate) fn push_char(s: &mut String, c: char)
    ensures
        final(s)@ == old(s)@.push(c),
{
    s.push(c)
}

/// Append `t` to `s`.
pub fn push_str(s: &mut String, t: &str)
    ensures
        final(s)@ == old(s)@ + t@,
{
    s.append(t)
}

/// A new string holding `t`.
pub fn string_of(t: &str) -> (r: String)
    ensures
        r@ == t@,
{
    String::from_str(t)
}

/// The character of decimal digit `d`.
pub open spec fn digit_char(d: int) -> char {
    if d == 0 {
        '0'
    } else if d == 1 {
        '1'
    } else if d == 2 {
        '2'
    } else if d == 3 {
        '3'
    } else if d == 4 {
        '4'
    } else if d == 5 {
        '5'
    } else if d == 6 {
        '6'
    } else if d == 7 {
        '7'
    } else if d == 8 {
        '8'
    } else {
        '9'
    }
}

/// The decimal digits of `n`, without leading zeros.
pub open spec fn decimal(n: nat) -> Seq<char>
    decreases n,
{
    if n < 10 {
        seq![digit_char(n as int)]
    } else {
        decimal(n / 10).push(digit_char((n % 10) as int))
    }
}

/// `n` in decimal, with a minus sign when negative.
pub open spec fn signed_decimal(n: int) -> Seq<char> {
    if n < 0 {
        seq!['-'] + decimal((-n) as nat)
    } else {
        decimal(n as nat)
    }
}

fn digit(d: u64) -> (r: char)
    requires
        d < 10,
    ensures
        r == digit_char(d as int),
{
    if d == 0 {
        '0'
    } else if d == 1 {
        '1'
    } else if d == 2 {
        '2'
    } else if d == 3 {
        '3'
    } else if d == 4 {
        '4'
    } else if d == 5 {
        '5'
    } else if d == 6 {
        '6'
    } else if d == 7 {
        '7'
    } else if d == 8 {
        '8'
    } else {
        '9'
    }
}

/// Append the decimal digits of `n` to `s`.
pub fn push_decimal(s: &mut String, n: u64)
    ensures
        final(s)@ == old(s)@ + decimal(n as nat),
    decreases n,
{
    if n < 10 {
        push_char(s, digit(n));
        assert(old(s)@.push(digit_char(n as int)) =~= old(s)@ + decimal(n as nat));
    } else {
        push_decimal(s, n / 10);
        push_char(s, digit(n % 10));
        assert(old(s)@ + decimal((n / 10) as nat) + seq![digit_char((n % 10) as int)] =~= old(s)@
            + decimal(n as nat));
    }
}

/// Append `n` in decimal, with a minus sign when negative.
pub fn push_signed(s: &mut String, n: i64)
    ensures
        final(s)@ == old(s)@ + signed_decimal(n as int),
{
    if n < 0 {
        push_char(s, '-');
        let m: u64 = if n == i64::MIN {
            9_223_372_036_854_775_808u64
        } else {
            (-n) as u64
        };
        push_decimal(s, m);
        assert(old(s)@.push('-') + decimal(m as nat) =~= old(s)@ + (seq!['-'] + decimal(m as nat)));
    } else {
        push_decimal(s, n as u64);
    }
}

/// `n` in decimal, padded with leading zeros to at least `width` digits.
pub open spec fn padded_decimal(n: nat, width: nat) -> Seq<char>
    decreases width,
{
    if decimal(n).len() >= width || width == 0 {
        decimal(n)
    } else {
        seq!['0'] + padded_decimal(n, (width - 1) as nat)
    }
}

/// Append `n` in decimal, padded with leading zeros to `width` digits.
pub fn push_padded(s: &mut String, n: u64, width: u64)
    ensures
        final(s)@ == old(s)@ + padded_decimal(n as nat, width as nat),
    decreases width,
{
    let mut digits = String::new();
    push_decimal(&mut digits, n);
    let len = digits.as_str().unicode_len();
    if len as u64 >= width || width == 0 {
        push_decimal(s, n);
    } else {
        push_char(s, '0');
        push_padded(s, n, width - 1);
        assert(old(s)@.push('0') + padded_decimal(n as nat, (width - 1) as nat) =~= old(s)@ + (
        seq!['0'] + padded_decimal(n as nat, (width - 1) as nat)));
    }
}


/// A year as `{:04}` writes it: at least four characters, zero-padded after
/// the sign.
pub open spec fn year_text(y: int) -> Seq<char> {
    if y < 0 {
        seq!['-'] + padded_decimal((-y) as nat, 3)
    } else {
        padded_decimal(y as nat, 4)
    }
}

/// Append year `y` as `{:04}` writes it.
pub fn push_year(s: &mut String, y: i64)
    ensures
        final(s)@ == old(s)@ + year_text(y as int),
{
    if y < 0 {
        push_char(s, '-');
        let m: u64 = if y == i64::MIN {
            9_223_372_036_854_775_808u64
        } else {
            (-y) as u64
        };
        push_padded(s, m, 3);
        assert(old(s)@.push('-') + padded_decimal(m as nat, 3) =~= old(s)@ + (seq!['-']
            + padded_decimal(m as nat, 3)));
    } else {
        push_padded(s, y as u64, 4);
    }
}

} // verus!
