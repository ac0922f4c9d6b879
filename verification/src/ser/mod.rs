//! Writing values as form bodies.

pub mod encoding;
pub mod error;
pub mod keyval;
pub mod pair;

use vstd::prelude::*;
use vstd::string::StringSliceAdditionalSpecFns;
use encoding::{Target, Encoder, Expected};
pub use error::Error;

verus! {

/// Writes a whole body: a map, a struct, or a sequence of pairs; the unit,
/// a unit struct and `None` give the empty body.
pub struct Serializer<T: Target>(pub Encoder<T>);

impl<T: Target> Serializer<T> {
    /// A serializer that writes after what `target` already holds.
    pub fn new(target: T) -> (r: Self)
        ensures
            r.0.wf(),
            r.0.bytes() == target.bytes(),
            r.0.start() == target.bytes().len(),
            r.0.state() == Expected::FirstKey,
            r.0.pairs() == Seq::<(Seq<u8>, Seq<u8>)>::empty(),
            !r.0.failed(),
    {
        Serializer(Encoder::new(target))
    }

    /// Ends the body and gives the target back; refused with `ExpectedValue`
    /// while a value is due.
    pub fn end(self) -> (r: Result<T, Error>)
        requires
            self.0.wf(),
        ensures
            self.0.state() is Value ==> r == Err::<T, Error>(Error::ExpectedValue),
            !(self.0.state() is Value) ==> (r matches Ok(t) && t.bytes() == self.0.bytes()),
            !self.0.failed() ==> (r matches Ok(t) ==> crate::format::parse_pairs(
                t.bytes().skip(self.0.start()),
            ) == self.0.pairs()),
    {
        self.0.finish()
    }

    /// Refuses a value that cannot stand at the top level: a scalar, a
    /// string, bytes, a tuple struct or an enum variant.
    pub fn serialize_invalid<U>(self) -> (r: Result<U, Error>)
        ensures
            r == Err::<U, Error>(Error::TopLevel),
    {
        Err(Error::TopLevel)
    }

    /// Writes the key of a struct field; its value follows through a value
    /// serializer.
    pub fn serialize_field_key(&mut self, key: &str) -> (r: Result<(), Error>)
        requires
            old(self).0.wf(),
        ensures
            final(self).0.wf(),
            Encoder::key_step(old(self).0, final(self).0, key.spec_bytes(), r),
    {
        self.0.push_key(key.as_bytes())
    }
}

} // verus!
