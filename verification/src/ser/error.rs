use vstd::prelude::*;

verus! {

/// Why a value could not be written as a form body.
#[derive(Clone, Debug, PartialEq, Eq)]
#[non_exhaustive]
pub enum Error {
    /// Only maps, structs and sequences of pairs can stand at the top level.
    TopLevel,
    /// A pair must be a tuple or a sequence.
    InvalidPair,
    /// A pair must have exactly two elements.
    InvalidPairLen,
    /// A value was given where a key was due.
    ExpectedKey,
    /// A key was given, or the body ended, where a value was due.
    ExpectedValue,
    /// The key or value has a shape that has no text form.
    UnsupportedKeyValType,
    /// An error raised by the value being written.
    Custom(String),
}

} // verus!
