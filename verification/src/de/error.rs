use std::num::{ParseFloatError, ParseIntError};
use std::str::{ParseBoolError, Utf8Error};
use vstd::prelude::*;

verus! {

#[verifier::external_type_specification]
#[verifier::external_body]
pub struct ExUtf8Error(Utf8Error);

#[verifier::external_type_specification]
#[verifier::external_body]
pub struct ExParseBoolError(ParseBoolError);

#[verifier::external_type_specification]
#[verifier::external_body]
pub struct ExParseIntError(ParseIntError);

#[verifier::external_type_specification]
#[verifier::external_body]
pub struct ExParseFloatError(ParseFloatError);

/// `<Utf8Error as Clone>::clone`: the derived field-by-field copy.
pub assume_specification[ <Utf8Error as Clone>::clone ](e: &Utf8Error) -> (r: Utf8Error)
    ensures
        r == *e,
;

/// `<ParseBoolError as Clone>::clone`: the derived field-by-field copy.
pub assume_specification[ <ParseBoolError as Clone>::clone ](e: &ParseBoolError) -> (r:
    ParseBoolError)
    ensures
        r == *e,
;

/// `<ParseIntError as Clone>::clone`: the derived field-by-field copy.
pub assume_specification[ <ParseIntError as Clone>::clone ](e: &ParseIntError) -> (r:
    ParseIntError)
    ensures
        r == *e,
;

/// `<ParseFloatError as Clone>::clone`: the derived field-by-field copy.
pub assume_specification[ <ParseFloatError as Clone>::clone ](e: &ParseFloatError) -> (r:
    ParseFloatError)
    ensures
        r == *e,
;

/// Why a form body could not be read as the requested value.
#[derive(Clone, Debug, PartialEq, Eq)]
#[non_exhaustive]
pub enum Error {
    /// Only enum variants without data can be read.
    UnitVariant,
    /// A key or value is not valid UTF-8 where text was requested.
    Utf8(Utf8Error),
    /// A key or value is not `true` or `false`.
    ParseBool(ParseBoolError),
    /// A key or value is not an integer of the requested type.
    ParseInt(ParseIntError),
    /// A key or value is not a floating-point number.
    ParseFloat(ParseFloatError),
    /// An error raised by the value being read.
    Custom(String),
}

} // verus!
