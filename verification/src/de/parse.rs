//! Reading a key or value as a boolean or an integer.

use std::num::ParseIntError;
use std::str::ParseBoolError;
use vstd::prelude::*;
use vstd::utf8::valid_utf8;
use super::encoding::Part;
use super::error::Error;

verus! {

/// The text `true`.
pub open spec fn true_text() -> Seq<char> {
    seq!['t', 'r', 'u', 'e']
}

/// The text `false`.
pub open spec fn false_text() -> Seq<char> {
    seq!['f', 'a', 'l', 's', 'e']
}

/// The value of a decimal digit.
pub open spec fn digit_value(c: char) -> int {
    (c as int) - 48
}

/// A non-empty run of decimal digits.
pub open spec fn is_digits(s: Seq<char>) -> bool {
    s.len() > 0 && forall|i: int| 0 <= i < s.len() ==> '0' <= #[trigger] s[i] <= '9'
}

/// The number that a run of decimal digits spells.
pub open spec fn digits_value(s: Seq<char>) -> int
    decreases s.len(),
{
    if s.len() == 0 {
        0
    } else {
        digits_value(s.drop_last()) * 10 + digit_value(s.last())
    }
}

/// The integer that `s` spells: decimal digits after an optional `+`, or,
/// when `signed`, an optional `-`.
pub open spec fn integer_text(s: Seq<char>, signed: bool) -> Option<int> {
    if s.len() > 0 && s[0] == '+' && is_digits(s.skip(1)) {
        Some(digits_value(s.skip(1)))
    } else if signed && s.len() > 0 && s[0] == '-' && is_digits(s.skip(1)) {
        Some(-digits_value(s.skip(1)))
    } else if is_digits(s) {
        Some(digits_value(s))
    } else {
        None
    }
}

/// The integer that `s` spells, when it lies in `min..=max`.
pub open spec fn integer_in(s: Seq<char>, signed: bool, min: int, max: int) -> Option<int> {
    match integer_text(s, signed) {
        Some(n) => if min <= n <= max {
            Some(n)
        } else {
            None
        },
        None => None,
    }
}

/// `<bool as FromStr>::from_str`: `true` and `false` are the only values
/// accepted.
#[verifier::external_body]
fn bool_from_str(s: &str) -> (r: Result<bool, ParseBoolError>)
    ensures
        r is Ok <==> (s@ == true_text() || s@ == false_text()),
        r matches Ok(v) ==> v == (s@ == true_text()),
{
    s.parse::<bool>()
}

/// `<i8 as FromStr>::from_str`: an optional `+` or `-` and then decimal digits, with a
/// value in the range of `i8`; anything else is refused.
#[verifier::external_body]
fn i8_from_str(s: &str) -> (r: Result<i8, ParseIntError>)
    ensures
        r is Ok <==> integer_in(s@, true, i8::MIN as int, i8::MAX as int) is Some,
        r matches Ok(v) ==> integer_in(s@, true, i8::MIN as int, i8::MAX as int) == Some(v as int),
{
    s.parse::<i8>()
}

/// `<i16 as FromStr>::from_str`: an optional `+` or `-` and then decimal digits, with a
/// value in the range of `i16`; anything else is refused.
#[verifier::external_body]
fn i16_from_str(s: &str) -> (r: Result<i16, ParseIntError>)
    ensures
        r is Ok <==> integer_in(s@, true, i16::MIN as int, i16::MAX as int) is Some,
        r matches Ok(v) ==> integer_in(s@, true, i16::MIN as int, i16::MAX as int) == Some(v as int),
{
    s.parse::<i16>()
}

/// `<i32 as FromStr>::from_str`: an optional `+` or `-` and then decimal digits, with a
/// value in the range of `i32`; anything else is refused.
#[verifier::external_body]
fn i32_from_str(s: &str) -> (r: Result<i32, ParseIntError>)
    ensures
        r is Ok <==> integer_in(s@, true, i32::MIN as int, i32::MAX as int) is Some,
        r matches Ok(v) ==> integer_in(s@, true, i32::MIN as int, i32::MAX as int) == Some(v as int),
{
    s.parse::<i32>()
}

/// `<i64 as FromStr>::from_str`: an optional `+` or `-` and then decimal digits, with a
/// value in the range of `i64`; anything else is refused.
#[verifier::external_body]
fn i64_from_str(s: &str) -> (r: Result<i64, ParseIntError>)
    ensures
        r is Ok <==> integer_in(s@, true, i64::MIN as int, i64::MAX as int) is Some,
        r matches Ok(v) ==> integer_in(s@, true, i64::MIN as int, i64::MAX as int) == Some(v as int),
{
    s.parse::<i64>()
}

/// `<i128 as FromStr>::from_str`: an optional `+` or `-` and then decimal digits, with a
/// value in the range of `i128`; anything else is refused.
#[verifier::external_body]
fn i128_from_str(s: &str) -> (r: Result<i128, ParseIntError>)
    ensures
        r is Ok <==> integer_in(s@, true, i128::MIN as int, i128::MAX as int) is Some,
        r matches Ok(v) ==> integer_in(s@, true, i128::MIN as int, i128::MAX as int) == Some(v as int),
{
    s.parse::<i128>()
}

/// `<u8 as FromStr>::from_str`: an optional `+` and then decimal digits, with a
/// value in the range of `u8`; anything else is refused.
#[verifier::external_body]
fn u8_from_str(s: &str) -> (r: Result<u8, ParseIntError>)
    ensures
        r is Ok <==> integer_in(s@, false, u8::MIN as int, u8::MAX as int) is Some,
        r matches Ok(v) ==> integer_in(s@, false, u8::MIN as int, u8::MAX as int) == Some(v as int),
{
    s.parse::<u8>()
}

/// `<u16 as FromStr>::from_str`: an optional `+` and then decimal digits, with a
/// value in the range of `u16`; anything else is refused.
#[verifier::external_body]
fn u16_from_str(s: &str) -> (r: Result<u16, ParseIntError>)
    ensures
        r is Ok <==> integer_in(s@, false, u16::MIN as int, u16::MAX as int) is Some,
        r matches Ok(v) ==> integer_in(s@, false, u16::MIN as int, u16::MAX as int) == Some(v as int),
{
    s.parse::<u16>()
}

/// `<u32 as FromStr>::from_str`: an optional `+` and then decimal digits, with a
/// value in the range of `u32`; anything else is refused.
#[verifier::external_body]
fn u32_from_str(s: &str) -> (r: Result<u32, ParseIntError>)
    ensures
        r is Ok <==> integer_in(s@, false, u32::MIN as int, u32::MAX as int) is Some,
        r matches Ok(v) ==> integer_in(s@, false, u32::MIN as int, u32::MAX as int) == Some(v as int),
{
    s.parse::<u32>()
}

/// `<u64 as FromStr>::from_str`: an optional `+` and then decimal digits, with a
/// value in the range of `u64`; anything else is refused.
#[verifier::external_body]
fn u64_from_str(s: &str) -> (r: Result<u64, ParseIntError>)
    ensures
        r is Ok <==> integer_in(s@, false, u64::MIN as int, u64::MAX as int) is Some,
        r matches Ok(v) ==> integer_in(s@, false, u64::MIN as int, u64::MAX as int) == Some(v as int),
{
    s.parse::<u64>()
}

/// `<u128 as FromStr>::from_str`: an optional `+` and then decimal digits, with a
/// value in the range of `u128`; anything else is refused.
#[verifier::external_body]
fn u128_from_str(s: &str) -> (r: Result<u128, ParseIntError>)
    ensures
        r is Ok <==> integer_in(s@, false, u128::MIN as int, u128::MAX as int) is Some,
        r matches Ok(v) ==> integer_in(s@, false, u128::MIN as int, u128::MAX as int) == Some(v as int),
{
    s.parse::<u128>()
}

impl<'a> Part<'a> {
    /// The part read as a boolean: refused with `Utf8` unless it is text,
    /// and with `ParseBool` unless it is `true` or `false`.
    pub fn parse_bool(&self) -> (r: Result<bool, Error>)
        ensures
            !valid_utf8(self@) ==> (r matches Err(e) && e is Utf8),
            valid_utf8(self@) ==> match r {
                Ok(v) => (self@ == vstd::utf8::encode_utf8(true_text()) && v) || (self@
                    == vstd::utf8::encode_utf8(false_text()) && !v),
                Err(e) => e is ParseBool && self@ != vstd::utf8::encode_utf8(true_text())
                    && self@ != vstd::utf8::encode_utf8(false_text()),
            },
    {
        let s = self.as_str()?;
        proof {
            vstd::utf8::encode_utf8_decode_utf8(s@);
            vstd::utf8::encode_utf8_decode_utf8(true_text());
            vstd::utf8::encode_utf8_decode_utf8(false_text());
        }
        match bool_from_str(s) {
            Ok(v) => Ok(v),
            Err(e) => Err(Error::ParseBool(e)),
        }
    }

    /// The part read as a `i8`: refused with `Utf8` unless it is text, and
    /// with `ParseInt` unless it spells an integer in the range of `i8`.
    pub fn parse_i8(&self) -> (r: Result<i8, Error>)
        ensures
            !valid_utf8(self@) ==> (r matches Err(e) && e is Utf8),
            valid_utf8(self@) ==> match r {
                Ok(v) => integer_in(vstd::utf8::decode_utf8(self@), true, i8::MIN as int, i8::MAX as int)
                    == Some(v as int),
                Err(e) => e is ParseInt && integer_in(vstd::utf8::decode_utf8(self@), true, i8::MIN as int, i8::MAX as int) is None,
            },
    {
        let s = self.as_str()?;
        proof {
            vstd::utf8::encode_utf8_decode_utf8(s@);
        }
        match i8_from_str(s) {
            Ok(v) => Ok(v),
            Err(e) => Err(Error::ParseInt(e)),
        }
    }

    /// The part read as a `i16`: refused with `Utf8` unless it is text, and
    /// with `ParseInt` unless it spells an integer in the range of `i16`.
    pub fn parse_i16(&self) -> (r: Result<i16, Error>)
        ensures
            !valid_utf8(self@) ==> (r matches Err(e) && e is Utf8),
            valid_utf8(self@) ==> match r {
                Ok(v) => integer_in(vstd::utf8::decode_utf8(self@), true, i16::MIN as int, i16::MAX as int)
                    == Some(v as int),
                Err(e) => e is ParseInt && integer_in(vstd::utf8::decode_utf8(self@), true, i16::MIN as int, i16::MAX as int) is None,
            },
    {
        let s = self.as_str()?;
        proof {
            vstd::utf8::encode_utf8_decode_utf8(s@);
        }
        match i16_from_str(s) {
            Ok(v) => Ok(v),
            Err(e) => Err(Error::ParseInt(e)),
        }
    }

    /// The part read as a `i32`: refused with `Utf8` unless it is text, and
    /// with `ParseInt` unless it spells an integer in the range of `i32`.
    pub fn parse_i32(&self) -> (r: Result<i32, Error>)
        ensures
            !valid_utf8(self@) ==> (r matches Err(e) && e is Utf8),
            valid_utf8(self@) ==> match r {
                Ok(v) => integer_in(vstd::utf8::decode_utf8(self@), true, i32::MIN as int, i32::MAX as int)
                    == Some(v as int),
                Err(e) => e is ParseInt && integer_in(vstd::utf8::decode_utf8(self@), true, i32::MIN as int, i32::MAX as int) is None,
            },
    {
        let s = self.as_str()?;
        proof {
            vstd::utf8::encode_utf8_decode_utf8(s@);
        }
        match i32_from_str(s) {
            Ok(v) => Ok(v),
            Err(e) => Err(Error::ParseInt(e)),
        }
    }

    /// The part read as a `i64`: refused with `Utf8` unless it is text, and
    /// with `ParseInt` unless it spells an integer in the range of `i64`.
    pub fn parse_i64(&self) -> (r: Result<i64, Error>)
        ensures
            !valid_utf8(self@) ==> (r matches Err(e) && e is Utf8),
            valid_utf8(self@) ==> match r {
                Ok(v) => integer_in(vstd::utf8::decode_utf8(self@), true, i64::MIN as int, i64::MAX as int)
                    == Some(v as int),
                Err(e) => e is ParseInt && integer_in(vstd::utf8::decode_utf8(self@), true, i64::MIN as int, i64::MAX as int) is None,
            },
    {
        let s = self.as_str()?;
        proof {
            vstd::utf8::encode_utf8_decode_utf8(s@);
        }
        match i64_from_str(s) {
            Ok(v) => Ok(v),
            Err(e) => Err(Error::ParseInt(e)),
        }
    }

    /// The part read as a `i128`: refused with `Utf8` unless it is text, and
    /// with `ParseInt` unless it spells an integer in the range of `i128`.
    pub fn parse_i128(&self) -> (r: Result<i128, Error>)
        ensures
            !valid_utf8(self@) ==> (r matches Err(e) && e is Utf8),
            valid_utf8(self@) ==> match r {
                Ok(v) => integer_in(vstd::utf8::decode_utf8(self@), true, i128::MIN as int, i128::MAX as int)
                    == Some(v as int),
                Err(e) => e is ParseInt && integer_in(vstd::utf8::decode_utf8(self@), true, i128::MIN as int, i128::MAX as int) is None,
            },
    {
        let s = self.as_str()?;
        proof {
            vstd::utf8::encode_utf8_decode_utf8(s@);
        }
        match i128_from_str(s) {
            Ok(v) => Ok(v),
            Err(e) => Err(Error::ParseInt(e)),
        }
    }

    /// The part read as a `u8`: refused with `Utf8` unless it is text, and
    /// with `ParseInt` unless it spells an integer in the range of `u8`.
    pub fn parse_u8(&self) -> (r: Result<u8, Error>)
        ensures
            !valid_utf8(self@) ==> (r matches Err(e) && e is Utf8),
            valid_utf8(self@) ==> match r {
                Ok(v) => integer_in(vstd::utf8::decode_utf8(self@), false, u8::MIN as int, u8::MAX as int)
                    == Some(v as int),
                Err(e) => e is ParseInt && integer_in(vstd::utf8::decode_utf8(self@), false, u8::MIN as int, u8::MAX as int) is None,
            },
    {
        let s = self.as_str()?;
        proof {
            vstd::utf8::encode_utf8_decode_utf8(s@);
        }
        match u8_from_str(s) {
            Ok(v) => Ok(v),
            Err(e) => Err(Error::ParseInt(e)),
        }
    }

    /// The part read as a `u16`: refused with `Utf8` unless it is text, and
    /// with `ParseInt` unless it spells an integer in the range of `u16`.
    pub fn parse_u16(&self) -> (r: Result<u16, Error>)
        ensures
            !valid_utf8(self@) ==> (r matches Err(e) && e is Utf8),
            valid_utf8(self@) ==> match r {
                Ok(v) => integer_in(vstd::utf8::decode_utf8(self@), false, u16::MIN as int, u16::MAX as int)
                    == Some(v as int),
                Err(e) => e is ParseInt && integer_in(vstd::utf8::decode_utf8(self@), false, u16::MIN as int, u16::MAX as int) is None,
            },
    {
        let s = self.as_str()?;
        proof {
            vstd::utf8::encode_utf8_decode_utf8(s@);
        }
        match u16_from_str(s) {
            Ok(v) => Ok(v),
            Err(e) => Err(Error::ParseInt(e)),
        }
    }

    /// The part read as a `u32`: refused with `Utf8` unless it is text, and
    /// with `ParseInt` unless it spells an integer in the range of `u32`.
    pub fn parse_u32(&self) -> (r: Result<u32, Error>)
        ensures
            !valid_utf8(self@) ==> (r matches Err(e) && e is Utf8),
            valid_utf8(self@) ==> match r {
                Ok(v) => integer_in(vstd::utf8::decode_utf8(self@), false, u32::MIN as int, u32::MAX as int)
                    == Some(v as int),
                Err(e) => e is ParseInt && integer_in(vstd::utf8::decode_utf8(self@), false, u32::MIN as int, u32::MAX as int) is None,
            },
    {
        let s = self.as_str()?;
        proof {
            vstd::utf8::encode_utf8_decode_utf8(s@);
        }
        match u32_from_str(s) {
            Ok(v) => Ok(v),
            Err(e) => Err(Error::ParseInt(e)),
        }
    }

    /// The part read as a `u64`: refused with `Utf8` unless it is text, and
    /// with `ParseInt` unless it spells an integer in the range of `u64`.
    pub fn parse_u64(&self) -> (r: Result<u64, Error>)
        ensures
            !valid_utf8(self@) ==> (r matches Err(e) && e is Utf8),
            valid_utf8(self@) ==> match r {
                Ok(v) => integer_in(vstd::utf8::decode_utf8(self@), false, u64::MIN as int, u64::MAX as int)
                    == Some(v as int),
                Err(e) => e is ParseInt && integer_in(vstd::utf8::decode_utf8(self@), false, u64::MIN as int, u64::MAX as int) is None,
            },
    {
        let s = self.as_str()?;
        proof {
            vstd::utf8::encode_utf8_decode_utf8(s@);
        }
        match u64_from_str(s) {
            Ok(v) => Ok(v),
            Err(e) => Err(Error::ParseInt(e)),
        }
    }

    /// The part read as a `u128`: refused with `Utf8` unless it is text, and
    /// with `ParseInt` unless it spells an integer in the range of `u128`.
    pub fn parse_u128(&self) -> (r: Result<u128, Error>)
        ensures
            !valid_utf8(self@) ==> (r matches Err(e) && e is Utf8),
            valid_utf8(self@) ==> match r {
                Ok(v) => integer_in(vstd::utf8::decode_utf8(self@), false, u128::MIN as int, u128::MAX as int)
                    == Some(v as int),
                Err(e) => e is ParseInt && integer_in(vstd::utf8::decode_utf8(self@), false, u128::MIN as int, u128::MAX as int) is None,
            },
    {
        let s = self.as_str()?;
        proof {
            vstd::utf8::encode_utf8_decode_utf8(s@);
        }
        match u128_from_str(s) {
            Ok(v) => Ok(v),
            Err(e) => Err(Error::ParseInt(e)),
        }
    }
}

} // verus!
