//! The MAC address type: six octets, with a canonical uppercase-hex text
//! form `XX:XX:XX:XX:XX:XX` and a parser that accepts exactly the strings of
//! that shape (either case of hex digit).

use vstd::prelude::*;
use crate::text::push_char;

verus! {

/// MAC address.
#[derive(Debug, Clone, PartialEq, Eq, PartialOrd, Ord, Structural)]
pub struct Mac(pub u8, pub u8, pub u8, pub u8, pub u8, pub u8);

/// MAC address parse error.
#[derive(Debug, Clone, PartialEq, Eq, Structural)]
pub struct MacParseError;

/// The uppercase hex character for a nibble.
pub open spec fn hex_digit_char(n: nat) -> char {
    if n == 0 {
        '0'
    } else if n == 1 {
        '1'
    } else if n == 2 {
        '2'
    } else if n == 3 {
        '3'
    } else if n == 4 {
        '4'
    } else if n == 5 {
        '5'
    } else if n == 6 {
        '6'
    } else if n == 7 {
        '7'
    } else if n == 8 {
        '8'
    } else if n == 9 {
        '9'
    } else if n == 10 {
        'A'
    } else if n == 11 {
        'B'
    } else if n == 12 {
        'C'
    } else if n == 13 {
        'D'
    } else if n == 14 {
        'E'
    } else {
        'F'
    }
}

/// The value of a hex digit character, upper or lower case; 16 for any
/// other character.
pub open spec fn hex_char_val(c: char) -> nat {
    let v = c as int;
    if 48 <= v <= 57 {
        (v - 48) as nat
    } else if 65 <= v <= 70 {
        (v - 55) as nat
    } else if 97 <= v <= 102 {
        (v - 87) as nat
    } else {
        16
    }
}

pub open spec fn is_hex_digit(c: char) -> bool {
    hex_char_val(c) < 16
}

/// Two uppercase hex characters for one octet.
pub open spec fn octet_text(b: u8) -> Seq<char> {
    seq![hex_digit_char(b as nat / 16), hex_digit_char(b as nat % 16)]
}

/// The canonical text form of a MAC address: uppercase hex octets joined by
/// colons, 17 characters in all.
pub open spec fn mac_text(m: Mac) -> Seq<char> {
    octet_text(m.0) + seq![':'] + octet_text(m.1) + seq![':'] + octet_text(m.2) + seq![':']
        + octet_text(m.3) + seq![':'] + octet_text(m.4) + seq![':'] + octet_text(m.5)
}

/// Whether a string is a well-formed MAC address text: exactly 17
/// characters, colons at the five separator positions, hex digits (either
/// case) everywhere else.
pub open spec fn valid_mac_text(t: Seq<char>) -> bool {
    &&& t.len() == 17
    &&& is_hex_digit(t[0])
    &&& is_hex_digit(t[1])
    &&& t[2] == ':'
    &&& is_hex_digit(t[3])
    &&& is_hex_digit(t[4])
    &&& t[5] == ':'
    &&& is_hex_digit(t[6])
    &&& is_hex_digit(t[7])
    &&& t[8] == ':'
    &&& is_hex_digit(t[9])
    &&& is_hex_digit(t[10])
    &&& t[11] == ':'
    &&& is_hex_digit(t[12])
    &&& is_hex_digit(t[13])
    &&& t[14] == ':'
    &&& is_hex_digit(t[15])
    &&& is_hex_digit(t[16])
}

/// The octet denoted by the two hex characters at positions `i` and `i + 1`.
pub open spec fn octet_of(t: Seq<char>, i: int) -> u8 {
    (hex_char_val(t[i]) * 16 + hex_char_val(t[i + 1])) as u8
}

/// The MAC address denoted by a well-formed MAC address text.
pub open spec fn mac_of_text(t: Seq<char>) -> Mac {
    Mac(octet_of(t, 0), octet_of(t, 3), octet_of(t, 6), octet_of(t, 9), octet_of(t, 12), octet_of(
        t,
        15,
    ))
}

impl Mac {
    /// Create a new instance with the specified octets.
    pub fn new(a: u8, b: u8, c: u8, d: u8, e: u8, f: u8) -> (r: Self)
        ensures
            r == Mac(a, b, c, d, e, f),
    {
        Mac(a, b, c, d, e, f)
    }

    /// The octet at position `i`, with position 0 leftmost in the text form.
    pub open spec fn octet(self, i: int) -> u8 {
        if i == 0 {
            self.0
        } else if i == 1 {
            self.1
        } else if i == 2 {
            self.2
        } else if i == 3 {
            self.3
        } else if i == 4 {
            self.4
        } else {
            self.5
        }
    }

    /// The octet at position `i`.
    pub fn nth_octet(&self, i: usize) -> (r: u8)
        requires
            i < 6,
        ensures
            r == self.octet(i as int),
    {
        if i == 0 {
            self.0
        } else if i == 1 {
            self.1
        } else if i == 2 {
            self.2
        } else if i == 3 {
            self.3
        } else if i == 4 {
            self.4
        } else {
            self.5
        }
    }

    /// The canonical text form, `XX:XX:XX:XX:XX:XX` in uppercase hex.
    pub fn to_text(&self) -> (r: String)
        ensures
            r@ == mac_text(*self),
    {
        let mut s = String::new();
        push_octet(&mut s, self.0);
        push_char(&mut s, ':');
        push_octet(&mut s, self.1);
        push_char(&mut s, ':');
        push_octet(&mut s, self.2);
        push_char(&mut s, ':');
        push_octet(&mut s, self.3);
        push_char(&mut s, ':');
        push_octet(&mut s, self.4);
        push_char(&mut s, ':');
        push_octet(&mut s, self.5);
        assert(s@ =~= mac_text(*self));
        s
    }

    /// Parse the canonical text form. Fails on any string that is not
    /// exactly 17 characters of colon-separated hex octets.
    pub fn parse(s: &str) -> (r: Result<Self, MacParseError>)
        ensures
            valid_mac_text(s@) ==> r == Ok::<Mac, MacParseError>(mac_of_text(s@)),
            !valid_mac_text(s@) ==> r == Err::<Mac, MacParseError>(MacParseError),
    {
        if s.unicode_len() != 17 {
            return Err(MacParseError);
        }
        if !(s.get_char(2) == ':' && s.get_char(5) == ':' && s.get_char(8) == ':' && s.get_char(11)
            == ':' && s.get_char(14) == ':') {
            return Err(MacParseError);
        }
        let o0 = match parse_octet(s, 0) {
            Some(v) => v,
            None => { return Err(MacParseError) },
        };
        let o1 = match parse_octet(s, 3) {
            Some(v) => v,
            None => { return Err(MacParseError) },
        };
        let o2 = match parse_octet(s, 6) {
            Some(v) => v,
            None => { return Err(MacParseError) },
        };
        let o3 = match parse_octet(s, 9) {
            Some(v) => v,
            None => { return Err(MacParseError) },
        };
        let o4 = match parse_octet(s, 12) {
            Some(v) => v,
            None => { return Err(MacParseError) },
        };
        let o5 = match parse_octet(s, 15) {
            Some(v) => v,
            None => { return Err(MacParseError) },
        };
        Ok(Mac(o0, o1, o2, o3, o4, o5))
    }
}

fn hex_val_exec(c: char) -> (r: Option<u8>)
    ensures
        is_hex_digit(c) ==> r == Some((hex_char_val(c) as u8)),
        !is_hex_digit(c) ==> r is None,
{
    let v = c as u32;
    if 48 <= v && v <= 57 {
        Some((v - 48) as u8)
    } else if 65 <= v && v <= 70 {
        Some((v - 55) as u8)
    } else if 97 <= v && v <= 102 {
        Some((v - 87) as u8)
    } else {
        None
    }
}

fn parse_octet(s: &str, i: usize) -> (r: Option<u8>)
    requires
        i <= 15,
        i + 2 <= s@.len(),
    ensures
        (is_hex_digit(s@[i as int]) && is_hex_digit(s@[i + 1])) ==> r == Some(
            octet_of(s@, i as int),
        ),
        !(is_hex_digit(s@[i as int]) && is_hex_digit(s@[i + 1])) ==> r is None,
{
    let hi = hex_val_exec(s.get_char(i));
    let lo = hex_val_exec(s.get_char(i + 1));
    match (hi, lo) {
        (Some(h), Some(l)) => Some(h * 16 + l),
        _ => None,
    }
}

/// Every nibble's hex character parses back to the nibble.
proof fn lemma_hex_digit_char_val(n: nat)
    requires
        n < 16,
    ensures
        is_hex_digit(hex_digit_char(n)),
        hex_char_val(hex_digit_char(n)) == n,
{
}

proof fn lemma_octet_text_chars(b: u8)
    ensures
        is_hex_digit(octet_text(b)[0]),
        is_hex_digit(octet_text(b)[1]),
        hex_char_val(octet_text(b)[0]) * 16 + hex_char_val(octet_text(b)[1]) == b,
{
    lemma_hex_digit_char_val(b as nat / 16);
    lemma_hex_digit_char_val(b as nat % 16);
}

/// Formatting a MAC address always yields a well-formed MAC address text,
/// and parsing that text yields the same address back.
pub proof fn lemma_mac_text_round_trip(m: Mac)
    ensures
        valid_mac_text(mac_text(m)),
        mac_of_text(mac_text(m)) == m,
{
    let t = mac_text(m);
    assert(t =~= seq![
        octet_text(m.0)[0],
        octet_text(m.0)[1],
        ':',
        octet_text(m.1)[0],
        octet_text(m.1)[1],
        ':',
        octet_text(m.2)[0],
        octet_text(m.2)[1],
        ':',
        octet_text(m.3)[0],
        octet_text(m.3)[1],
        ':',
        octet_text(m.4)[0],
        octet_text(m.4)[1],
        ':',
        octet_text(m.5)[0],
        octet_text(m.5)[1],
    ]);
    lemma_octet_text_chars(m.0);
    lemma_octet_text_chars(m.1);
    lemma_octet_text_chars(m.2);
    lemma_octet_text_chars(m.3);
    lemma_octet_text_chars(m.4);
    lemma_octet_text_chars(m.5);
}

fn push_octet(s: &mut String, b: u8)
    ensures
        final(s)@ == old(s)@ + octet_text(b),
{
    push_char(s, hex_char_exec(b / 16));
    push_char(s, hex_char_exec(b % 16));
    assert(s@ =~= old(s)@ + octet_text(b));
}

fn hex_char_exec(n: u8) -> (c: char)
    requires
        n < 16,
    ensures
        c == hex_digit_char(n as nat),
{
    match n {
        0 => '0',
        1 => '1',
        2 => '2',
        3 => '3',
        4 => '4',
        5 => '5',
        6 => '6',
        7 => '7',
        8 => '8',
        9 => '9',
        10 => 'A',
        11 => 'B',
        12 => 'C',
        13 => 'D',
        14 => 'E',
        _ => 'F',
    }
}

impl std::str::FromStr for Mac {
    type Err = MacParseError;

    fn from_str(s: &str) -> Result<Self, Self::Err> {
        Self::parse(s)
    }
}

} // verus!
