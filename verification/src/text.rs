//! Decimal digit strings, plus the two string-building primitives that the
//! rest of the crate relies on.

use vstd::prelude::*;

verus! {

/// Relies on `String::push`: appends the given character to the end of the
/// string.
#[verifier::external_body]
pub(crate) fn push_char(s: &mut String, c: char)
    ensures
        final(s)@ == old(s)@.push(c),
{
    s.push(c);
}

/// Relies on `char::from_u32`: returns `Some` exactly for valid Unicode
/// scalar values (code points outside the surrogate range and at most
/// 0x10FFFF), and the returned character has that code point.
#[verifier::external_body]
pub(crate) fn char_from_u32(v: u32) -> (r: Option<char>)
    ensures
        r is Some <==> (v < 0xD800 || (0xE000 <= v && v <= 0x10FFFF)),
        r matches Some(c) ==> c == (v as char),
{
    char::from_u32(v)
}

/// The character for one decimal digit.
pub open spec fn dec_digit(n: nat) -> char {
    if n == 0 {
        '0'
    } else if n == 1 {
        '1'
    } else if n == 2 {
        '2'
    } else if n == 3 {
        '3'
    } else if n == 4 {
        '4'
    } else if n == 5 {
        '5'
    } else if n == 6 {
        '6'
    } else if n == 7 {
        '7'
    } else if n == 8 {
        '8'
    } else {
        '9'
    }
}

/// The usual decimal digit string of `n`, without a sign and without
/// leading zeros (a single `'0'` for zero).
pub open spec fn nat_text(n: nat) -> Seq<char>
    decreases n,
{
    if n < 10 {
        seq![dec_digit(n)]
    } else {
        nat_text(n / 10).push(dec_digit(n % 10))
    }
}

/// The decimal digit string of `i`, with a leading `'-'` when negative.
pub open spec fn int_text(i: int) -> Seq<char> {
    if i >= 0 {
        nat_text(i as nat)
    } else {
        seq!['-'].add(nat_text((-i) as nat))
    }
}

pub(crate) fn digit_char(d: u8) -> (c: char)
    requires
        d < 10,
    ensures
        c == dec_digit(d as nat),
{
    match d {
        0 => '0',
        1 => '1',
        2 => '2',
        3 => '3',
        4 => '4',
        5 => '5',
        6 => '6',
        7 => '7',
        8 => '8',
        _ => '9',
    }
}

/// Appends the decimal digits of `n` to `s`.
pub(crate) fn push_u8_digits(s: &mut String, n: u8)
    ensures
        final(s)@ == old(s)@ + nat_text(n as nat),
    decreases n,
{
    if n >= 10 {
        push_u8_digits(s, n / 10);
    }
    push_char(s, digit_char(n % 10));
    assert(s@ =~= old(s)@ + nat_text(n as nat));
}

/// Appends the decimal digits of `v` to `s`, with a leading minus sign when
/// `v` is negative.
pub(crate) fn push_i8_digits(s: &mut String, v: i8)
    ensures
        final(s)@ == old(s)@ + int_text(v as int),
{
    if v < 0 {
        push_char(s, '-');
        let mag: u8 = (-(v as i16)) as u8;
        push_u8_digits(s, mag);
        assert(s@ =~= old(s)@ + int_text(v as int));
    } else {
        push_u8_digits(s, v as u8);
    }
}

} // verus!
