//! Reading form bodies.

pub mod encoding;
pub mod error;
pub mod parse;

use vstd::prelude::*;
use encoding::PairIter;
pub use error::Error;

verus! {

/// Reads a form body as a sequence of key-value pairs.
pub struct Deserializer<'de>(pub PairIter<'de>);

impl<'de> Deserializer<'de> {
    /// A deserializer over the pairs of `bytes`.
    pub fn new(bytes: &'de [u8]) -> (r: Self)
        ensures
            r.0.0@ == bytes@,
            r.0.remaining() == crate::format::parse_pairs(bytes@),
    {
        Deserializer(PairIter(bytes))
    }

    /// The body holds no pair at all.
    pub fn is_empty(&self) -> (r: bool)
        ensures
            r == (self.0.remaining().len() == 0),
    {
        let mut probe = PairIter(self.0.0);
        probe.next().is_none()
    }
}

} // verus!
