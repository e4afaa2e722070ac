//! Decimal numbers as they appear in the document text.
//!
//! A `Number` keeps the printed form exactly: a sign, the integer part, and
//! the fraction digits (most significant first, trailing zeros kept).  The
//! schema's integer fields are carried as numbers with an empty fraction;
//! its fractional fields (budget, price, positions, duration) are carried
//! as-is, so a round trip through the document reproduces the digits.

use vstd::prelude::*;

verus! {

/// A decimal number: sign, integer part, fraction digits (values 0..9).
#[derive(Clone, Debug, PartialEq)]
pub struct Number {
    pub neg: bool,
    pub whole: u64,
    pub frac: Vec<u8>,
}

/// The mathematical content of a `Number`.
#[verifier::ext_equal]
pub struct NumV {
    pub neg: bool,
    pub whole: u64,
    pub frac: Seq<u8>,
}

impl View for Number {
    type V = NumV;

    open spec fn view(&self) -> NumV {
        NumV { neg: self.neg, whole: self.whole, frac: self.frac@ }
    }
}

/// Every fraction digit is a decimal digit.
pub open spec fn num_wf(n: NumV) -> bool {
    forall|i: int| 0 <= i < n.frac.len() ==> n.frac[i] < 10
}

/// The number that holds an unsigned integer.
pub open spec fn u64_num(v: u64) -> NumV {
    NumV { neg: false, whole: v, frac: Seq::empty() }
}

/// The magnitude of a signed integer.
pub open spec fn abs_i64(v: i64) -> u64 {
    if v < 0 {
        (-(v as int)) as u64
    } else {
        v as u64
    }
}

/// The number that holds a signed integer.
pub open spec fn i64_num(v: i64) -> NumV {
    NumV { neg: v < 0, whole: abs_i64(v), frac: Seq::empty() }
}

/// The unsigned integer a number denotes, if it is one.
pub open spec fn num_as_u64(n: NumV) -> Option<u64> {
    if n.frac.len() == 0 && !n.neg {
        Some(n.whole)
    } else {
        None
    }
}

/// The signed integer a number denotes, if it is one.
pub open spec fn num_as_i64(n: NumV) -> Option<i64> {
    if n.frac.len() != 0 {
        None
    } else if !n.neg {
        if n.whole <= i64::MAX as u64 {
            Some(n.whole as i64)
        } else {
            None
        }
    } else {
        if 1 <= n.whole && n.whole <= 0x8000_0000_0000_0000u64 {
            Some((-(n.whole as int)) as i64)
        } else {
            None
        }
    }
}

/// As `num_as_i64`, narrowed to `i32`.
pub open spec fn num_as_i32(n: NumV) -> Option<i32> {
    match num_as_i64(n) {
        Some(v) => if i32::MIN as i64 <= v && v <= i32::MAX as i64 {
            Some(v as i32)
        } else {
            None
        },
        None => None,
    }
}

/// As `num_as_u64`, narrowed to `u32`.
pub open spec fn num_as_u32(n: NumV) -> Option<u32> {
    match num_as_u64(n) {
        Some(v) => if v <= u32::MAX as u64 {
            Some(v as u32)
        } else {
            None
        },
        None => None,
    }
}

impl Number {
    pub open spec fn wf(&self) -> bool {
        num_wf(self@)
    }

    pub fn from_u64(v: u64) -> (r: Number)
        ensures
            r@ == u64_num(v),
    {
        let r = Number { neg: false, whole: v, frac: Vec::new() };
        proof {
            assert(r@ =~= u64_num(v));
        }
        r
    }

    pub fn from_u32(v: u32) -> (r: Number)
        ensures
            r@ == u64_num(v as u64),
    {
        Number::from_u64(v as u64)
    }

    pub fn from_i64(v: i64) -> (r: Number)
        ensures
            r@ == i64_num(v),
    {
        let whole: u64 = if v >= 0 {
            v as u64
        } else if v == i64::MIN {
            0x8000_0000_0000_0000u64
        } else {
            (-v) as u64
        };
        let r = Number { neg: v < 0, whole, frac: Vec::new() };
        proof {
            assert(r@ =~= i64_num(v));
        }
        r
    }

    pub fn from_i32(v: i32) -> (r: Number)
        ensures
            r@ == i64_num(v as i64),
    {
        Number::from_i64(v as i64)
    }

    pub fn to_u64(&self) -> (r: Option<u64>)
        ensures
            r == num_as_u64(self@),
    {
        if self.frac.len() == 0 && !self.neg {
            Some(self.whole)
        } else {
            None
        }
    }

    pub fn to_i64(&self) -> (r: Option<i64>)
        ensures
            r == num_as_i64(self@),
    {
        if self.frac.len() != 0 {
            None
        } else if !self.neg {
            if self.whole <= i64::MAX as u64 {
                Some(self.whole as i64)
            } else {
                None
            }
        } else {
            if 1 <= self.whole && self.whole <= 0x8000_0000_0000_0000u64 {
                if self.whole == 0x8000_0000_0000_0000u64 {
                    Some(i64::MIN)
                } else {
                    Some(-(self.whole as i64))
                }
            } else {
                None
            }
        }
    }

    pub fn to_i32(&self) -> (r: Option<i32>)
        ensures
            r == num_as_i32(self@),
    {
        match self.to_i64() {
            Some(v) => if i32::MIN as i64 <= v && v <= i32::MAX as i64 {
                Some(v as i32)
            } else {
                None
            },
            None => None,
        }
    }

    pub fn to_u32(&self) -> (r: Option<u32>)
        ensures
            r == num_as_u32(self@),
    {
        match self.to_u64() {
            Some(v) => if v <= u32::MAX as u64 {
                Some(v as u32)
            } else {
                None
            },
            None => None,
        }
    }
}

/// An integer survives the trip into a number and back.
pub proof fn lemma_i64_num_round_trip(v: i64)
    ensures
        num_as_i64(i64_num(v)) == Some(v),
{
}

/// An unsigned integer survives the trip into a number and back.
pub proof fn lemma_u64_num_round_trip(v: u64)
    ensures
        num_as_u64(u64_num(v)) == Some(v),
{
}

/// The character for a decimal digit value.
pub open spec fn digit_char(d: u8) -> char
    recommends
        d < 10,
{
    ((d + 48) as u8) as char
}

/// Whether a character is a decimal digit.
pub open spec fn is_digit(c: char) -> bool {
    48 <= c as u32 && c as u32 <= 57
}

/// The value of a decimal digit character.
pub open spec fn digit_val(c: char) -> u8
    recommends
        is_digit(c),
{
    ((c as u32) - 48) as u8
}

/// The decimal notation of an unsigned integer, most significant digit first.
pub open spec fn dec_str(w: u64) -> Seq<char>
    decreases w,
{
    if w < 10 {
        seq![digit_char(w as u8)]
    } else {
        dec_str(w / 10).push(digit_char((w % 10) as u8))
    }
}

/// A digit character carries its value back.
pub proof fn lemma_digit_char_val(d: u8)
    requires
        d < 10,
    ensures
        is_digit(digit_char(d)),
        digit_val(digit_char(d)) == d,
{
}

/// Shape of decimal notation: nonempty, all digits, no leading zero.
pub proof fn lemma_dec_str_shape(w: u64)
    ensures
        dec_str(w).len() >= 1,
        forall|k: int| 0 <= k < dec_str(w).len() ==> is_digit(#[trigger] dec_str(w)[k]),
        w >= 1 ==> dec_str(w)[0] != '0',
    decreases w,
{
    if w < 10 {
        lemma_digit_char_val(w as u8);
        if w >= 1 {
            assert(digit_val(dec_str(w)[0]) == w as u8);
            assert(digit_val('0') == 0);
        }
    } else {
        lemma_dec_str_shape(w / 10);
        lemma_digit_char_val((w % 10) as u8);
        assert(dec_str(w)[0] == dec_str(w / 10)[0]);
    }
}

} // verus!
