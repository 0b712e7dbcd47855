use vstd::prelude::*;
use vstd::string::*;

verus! {

/// The decimal digits, indexed by value.
pub open spec fn digit_chars() -> Seq<char> {
    seq!['0', '1', '2', '3', '4', '5', '6', '7', '8', '9']
}

/// The decimal form of a natural number, without sign or leading zeros.
pub open spec fn decimal(n: nat) -> Seq<char>
    decreases n,
{
    if n < 10 {
        seq![digit_chars()[n as int]]
    } else {
        decimal(n / 10) + seq![digit_chars()[(n % 10) as int]]
    }
}

pub open spec fn is_upper(c: char) -> bool {
    'A' <= c && c <= 'Z'
}

/// ASCII lower-casing of one character; other characters are kept.
pub open spec fn lower(c: char) -> char {
    if is_upper(c) {
        ((c as u32) + 32) as char
    } else {
        c
    }
}

/// Relies on String::push: appends one character at the end.
#[verifier::external_body]
pub(crate) fn push_char(s: &mut String, c: char)
    ensures
        final(s)@ == old(s)@.push(c),
{
    s.push(c)
}

fn digit(d: u128) -> (c: char)
    requires
        d < 10,
    ensures
        c == digit_chars()[d as int],
{
    if d == 0 { '0' } else if d == 1 { '1' } else if d == 2 { '2' } else if d == 3 { '3' }
    else if d == 4 { '4' } else if d == 5 { '5' } else if d == 6 { '6' } else if d == 7 { '7' }
    else if d == 8 { '8' } else { '9' }
}

/// Appends the decimal form of `n`.
pub fn push_decimal(s: &mut String, n: u128)
    ensures
        final(s)@ == old(s)@ + decimal(n as nat),
    decreases n,
{
    if n < 10 {
        push_char(s, digit(n));
    } else {
        push_decimal(s, n / 10);
        push_char(s, digit(n % 10));
    }
}

pub fn lower_char(c: char) -> (r: char)
    ensures
        r == lower(c),
{
    if 'A' <= c && c <= 'Z' {
        ((c as u8) + 32) as char
    } else {
        c
    }
}

} // verus!
