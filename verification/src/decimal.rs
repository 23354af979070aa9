//! Fixed-point decimal values: a signed whole part and an unsigned
//! fractional part whose scale is the digit count of the fraction.

use vstd::prelude::*;
use crate::text::{dec_digit, int_text, nat_text, push_char, push_i8_digits, push_u8_digits};

verus! {

/// A fixed-point number: whole part, then fractional part. Used for
/// temperatures and battery voltages.
#[derive(Debug, Clone, Copy, PartialEq, Eq, PartialOrd, Ord, Structural)]
pub struct Decimal(pub i8, pub u8);

/// The number of decimal digits of `n`, with zero digits for zero.
pub open spec fn digit_count(n: nat) -> nat
    decreases n,
{
    if n == 0 {
        0
    } else {
        1 + digit_count(n / 10)
    }
}

proof fn lemma_digit_count_1(n: nat)
    requires
        n < 10,
    ensures
        digit_count(n) <= 1,
{
    assert(digit_count(0) == 0);
}

proof fn lemma_digit_count_2(n: nat)
    requires
        n < 100,
    ensures
        digit_count(n) <= 2,
{
    lemma_digit_count_1(n / 10);
}

/// A fraction that fits in eight bits has at most three decimal digits.
proof fn lemma_digit_count_u8(n: nat)
    requires
        n < 256,
    ensures
        digit_count(n) <= 3,
{
    lemma_digit_count_2(n / 10);
}

/// The text form of a decimal value: `{whole}.{fraction}` with the
/// fraction's digits exactly as stored.
pub open spec fn decimal_text(d: Decimal) -> Seq<char> {
    int_text(d.0 as int) + seq!['.'] + nat_text(d.1 as nat)
}

impl Decimal {
    pub fn new(whole: i8, fraction: u8) -> (r: Self)
        ensures
            r == Decimal(whole, fraction),
    {
        Decimal(whole, fraction)
    }

    pub fn whole(self) -> (r: i8)
        ensures
            r == self.0,
    {
        self.0
    }

    pub fn fraction(self) -> (r: u8)
        ensures
            r == self.1,
    {
        self.1
    }

    /// The decimal scale: how many digits the stored fraction has.
    pub fn scale(self) -> (r: u8)
        ensures
            r == digit_count(self.1 as nat),
    {
        proof {
            lemma_digit_count_u8(self.1 as nat);
        }
        let mut fract = self.1;
        let mut count: u8 = 0;
        while fract != 0
            invariant
                count + digit_count(fract as nat) == digit_count(self.1 as nat),
                digit_count(self.1 as nat) <= 3,
            decreases fract,
        {
            fract = fract / 10;
            count = count + 1;
        }
        count
    }

    /// The text form `{whole}.{fraction}`.
    pub fn to_text(&self) -> (r: String)
        ensures
            r@ == decimal_text(*self),
    {
        let mut s = String::new();
        push_i8_digits(&mut s, self.0);
        push_char(&mut s, '.');
        push_u8_digits(&mut s, self.1);
        assert(s@ =~= decimal_text(*self));
        s
    }
}

impl Default for Decimal {
    fn default() -> (r: Self)
        ensures
            r == Decimal(0, 0),
    {
        Decimal(0, 0)
    }
}

// ---------------------------------------------------------------------------
// Parsing the text form back
// ---------------------------------------------------------------------------
pub open spec fn is_dec_digit(c: char) -> bool {
    48 <= c as int <= 57
}

pub open spec fn digit_val(c: char) -> nat {
    (c as int - 48) as nat
}

pub open spec fn all_digits(t: Seq<char>) -> bool {
    forall|k: int| 0 <= k < t.len() ==> is_dec_digit(#[trigger] t[k])
}

/// The number denoted by a digit string, most significant digit first.
pub open spec fn digits_val(t: Seq<char>) -> nat
    decreases t.len(),
{
    if t.len() == 0 {
        0
    } else {
        digits_val(t.drop_last()) * 10 + digit_val(t.last())
    }
}

/// The first position at or after `i` holding a dot, or the length.
pub open spec fn dot_pos(t: Seq<char>, i: int) -> int
    decreases t.len() - i,
{
    if i < 0 || i >= t.len() {
        t.len() as int
    } else if t[i] == '.' {
        i
    } else {
        dot_pos(t, i + 1)
    }
}

/// What a decimal text denotes: an optional minus sign, a whole part whose
/// magnitude fits the signed byte, a dot, and a fraction that fits the
/// unsigned byte.
pub open spec fn parse_decimal_text(t: Seq<char>) -> Option<Decimal> {
    let neg = t.len() > 0 && t[0] == '-';
    let start: int = if neg {
        1
    } else {
        0
    };
    let dp = dot_pos(t, start);
    let whole_digits = t.subrange(start, dp);
    let frac_digits = t.subrange(dp + 1, t.len() as int);
    let bound: nat = if neg {
        128
    } else {
        127
    };
    if dp < t.len() && whole_digits.len() > 0 && frac_digits.len() > 0 && all_digits(whole_digits)
        && all_digits(frac_digits) && digits_val(whole_digits) <= bound && digits_val(frac_digits)
        <= 255 {
        let mag = digits_val(whole_digits) as int;
        let w: int = if neg {
            -mag
        } else {
            mag
        };
        Some(Decimal(w as i8, digits_val(frac_digits) as u8))
    } else {
        None
    }
}

/// A longer digit string never denotes a smaller number.
proof fn lemma_digits_val_mono(t: Seq<char>, from: int, i: int, j: int)
    requires
        0 <= from <= i <= j <= t.len(),
    ensures
        digits_val(t.subrange(from, j)) >= digits_val(t.subrange(from, i)),
    decreases j - i,
{
    if i < j {
        lemma_digits_val_mono(t, from, i, j - 1);
        assert(t.subrange(from, j).drop_last() =~= t.subrange(from, j - 1));
        assert(digits_val(t.subrange(from, j)) == digits_val(t.subrange(from, j - 1)) * 10
            + digit_val(t.subrange(from, j).last()));
    }
}

proof fn lemma_digits_val_snoc(t: Seq<char>, from: int, i: int)
    requires
        0 <= from <= i < t.len(),
    ensures
        digits_val(t.subrange(from, i + 1)) == digits_val(t.subrange(from, i)) * 10 + digit_val(
            t[i],
        ),
{
    assert(t.subrange(from, i + 1).drop_last() =~= t.subrange(from, i));
    assert(t.subrange(from, i + 1).last() == t[i]);
}

/// Reads the number denoted by the digits in `[from, to)`; fails on a
/// non-digit or a value above 999.
fn parse_digits(s: &str, from: usize, to: usize) -> (r: Option<u16>)
    requires
        from <= to <= s@.len(),
        to <= usize::MAX,
    ensures
        match r {
            Some(v) => all_digits(s@.subrange(from as int, to as int)) && digits_val(
                s@.subrange(from as int, to as int),
            ) == v && v <= 999,
            None => !(all_digits(s@.subrange(from as int, to as int)) && digits_val(
                s@.subrange(from as int, to as int),
            ) <= 999),
        },
{
    let mut acc: u32 = 0;
    let mut i = from;
    while i < to
        invariant
            from <= i <= to <= s@.len(),
            acc == digits_val(s@.subrange(from as int, i as int)),
            acc <= 999,
            all_digits(s@.subrange(from as int, i as int)),
        decreases to - i,
    {
        let c = s.get_char(i);
        let v = c as u32;
        if !(48 <= v && v <= 57) {
            proof {
                assert(s@.subrange(from as int, to as int)[i - from] == s@[i as int]);
                assert(!all_digits(s@.subrange(from as int, to as int)));
            }
            return None;
        }
        proof {
            lemma_digits_val_snoc(s@, from as int, i as int);
        }
        acc = acc * 10 + (v - 48);
        i = i + 1;
        if acc > 999 {
            proof {
                lemma_digits_val_mono(s@, from as int, i as int, to as int);
            }
            return None;
        }
    }
    proof {
        assert(s@.subrange(from as int, to as int) =~= s@.subrange(from as int, i as int));
    }
    Some(acc as u16)
}

impl Decimal {
    /// Parse the text form `{whole}.{fraction}`: an optional minus sign, a
    /// whole part, a dot, and a fraction, each within the stored ranges.
    pub fn parse(s: &str) -> (r: Option<Decimal>)
        ensures
            r == parse_decimal_text(s@),
    {
        let n = s.unicode_len();
        if n == 0 {
            return None;
        }
        let neg = s.get_char(0) == '-';
        let start: usize = if neg {
            1
        } else {
            0
        };
        let mut dp = start;
        while dp < n && s.get_char(dp) != '.'
            invariant
                start <= dp <= n,
                n == s@.len(),
                dot_pos(s@, start as int) == dot_pos(s@, dp as int),
            decreases n - dp,
        {
            dp = dp + 1;
        }
        if dp == n || dp == start || dp + 1 == n {
            return None;
        }
        let bound: u16 = if neg {
            128
        } else {
            127
        };
        let mag = match parse_digits(s, start, dp) {
            Some(v) => v,
            None => { return None },
        };
        if mag > bound {
            return None;
        }
        let frac = match parse_digits(s, dp + 1, n) {
            Some(v) => v,
            None => { return None },
        };
        if frac > 255 {
            return None;
        }
        let whole: i8 = if neg {
            (-(mag as i16)) as i8
        } else {
            mag as i8
        };
        Some(Decimal(whole, frac as u8))
    }
}

/// Every character of a number's digit string is a digit, and the string
/// denotes the number back.
proof fn lemma_nat_text_digits(n: nat)
    ensures
        all_digits(nat_text(n)),
        digits_val(nat_text(n)) == n,
        nat_text(n).len() >= 1,
    decreases n,
{
    if n < 10 {
        assert(nat_text(n) =~= seq![dec_digit(n)]);
        assert(nat_text(n).len() == 1);
        assert(nat_text(n).last() == dec_digit(n));
        assert(nat_text(n).drop_last() =~= Seq::<char>::empty());
        assert(digits_val(Seq::<char>::empty()) == 0);
        assert(digits_val(nat_text(n)) == digit_val(dec_digit(n)));
    } else {
        lemma_nat_text_digits(n / 10);
        assert(nat_text(n) == nat_text(n / 10).push(dec_digit(n % 10)));
        assert(nat_text(n).drop_last() =~= nat_text(n / 10));
        assert(nat_text(n).last() == dec_digit(n % 10));
        assert(digits_val(nat_text(n)) == digits_val(nat_text(n / 10)) * 10 + digit_val(
            dec_digit(n % 10),
        ));
        assert forall|k: int| 0 <= k < nat_text(n).len() implies is_dec_digit(
            #[trigger] nat_text(n)[k],
        ) by {
            if k < nat_text(n / 10).len() {
                assert(nat_text(n)[k] == nat_text(n / 10)[k]);
            } else {
                assert(nat_text(n)[k] == dec_digit(n % 10));
            }
        }
    }
}

/// The dot search skips exactly the digits before the dot.
proof fn lemma_dot_pos_over_digits(t: Seq<char>, i: int, j: int)
    requires
        0 <= i <= j < t.len(),
        t[j] == '.',
        forall|k: int| i <= k < j ==> is_dec_digit(#[trigger] t[k]),
    ensures
        dot_pos(t, i) == j,
    decreases j - i,
{
    if i < j {
        assert(is_dec_digit(t[i]));
        assert(t[i] != '.');
        lemma_dot_pos_over_digits(t, i + 1, j);
    }
}

/// Round trip: the text form of every decimal value parses back to the
/// same value.
pub proof fn lemma_decimal_text_round_trip(d: Decimal)
    ensures
        parse_decimal_text(decimal_text(d)) == Some(d),
{
    let t = decimal_text(d);
    let w = d.0 as int;
    let mag: nat = if w < 0 {
        (-w) as nat
    } else {
        w as nat
    };
    let f = d.1 as nat;
    lemma_nat_text_digits(mag);
    lemma_nat_text_digits(f);
    let wl = nat_text(mag).len() as int;
    let neg = w < 0;
    let start: int = if neg {
        1
    } else {
        0
    };
    if neg {
        assert(int_text(w) =~= seq!['-'] + nat_text(mag));
        assert(t[0] == '-');
    } else {
        assert(int_text(w) =~= nat_text(mag));
        assert(t[0] == nat_text(mag)[0]);
        assert(is_dec_digit(t[0]));
        assert(t[0] != '-');
    }
    let dp = start + wl;
    assert(t.len() == start + wl + 1 + nat_text(f).len());
    assert(t[dp] == '.');
    assert forall|k: int| start <= k < dp implies is_dec_digit(#[trigger] t[k]) by {
        assert(t[k] == nat_text(mag)[k - start]);
    }
    lemma_dot_pos_over_digits(t, start, dp);
    assert(t.subrange(start, dp) =~= nat_text(mag));
    assert(t.subrange(dp + 1, t.len() as int) =~= nat_text(f));
    assert(mag <= if neg {
        128int
    } else {
        127int
    });
    assert(f <= 255);
    if neg {
        assert((-(mag as int)) as i8 == d.0);
    } else {
        assert(mag as i8 == d.0);
    }
    assert(f as u8 == d.1);
}

} // verus!
