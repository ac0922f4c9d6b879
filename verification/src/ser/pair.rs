//! Writing one pair of a sequence of pairs: a two-element tuple or sequence
//! whose first element is the key and second the value.

use vstd::prelude::*;
use super::encoding::{Target, Encoder};
use super::error::Error;

verus! {

/// Which element of the pair comes next.
pub enum State {
    /// The key.
    Key,
    /// The value.
    Value,
    /// Both are written.
    Done,
}

/// Writes one pair through an encoder.
pub struct PairSerializer<'a, T: Target> {
    pub encoder: &'a mut Encoder<T>,
    pub state: State,
}

impl<'a, T: Target> PairSerializer<'a, T> {
    /// A pair serializer that expects the key first.
    pub fn new(encoder: &'a mut Encoder<T>) -> (r: Self)
        ensures
            r.state == State::Key,
            *r.encoder == *old(encoder),
            *final(r.encoder) == *final(encoder),
    {
        PairSerializer { encoder, state: State::Key }
    }

    /// Starts the pair as a sequence of `len` elements, where the length is
    /// known: it must be two.
    pub fn serialize_seq(self, len: Option<usize>) -> (r: Result<Self, Error>)
        ensures
            match len {
                Some(n) => n != 2 ==> r == Err::<Self, Error>(Error::InvalidPairLen),
                None => true,
            },
            r is Err ==> *final(self.encoder) == *old(self.encoder),
            (len is None || len == Some(2usize)) ==> (r matches Ok(p) && p.state == self.state
                && *p.encoder == *old(self.encoder) && *final(p.encoder) == *final(self.encoder)),
    {
        match len {
            Some(n) => {
                if n == 2 {
                    Ok(self)
                } else {
                    Err(Error::InvalidPairLen)
                }
            },
            None => Ok(self),
        }
    }

    /// Starts the pair as a tuple of `len` elements: it must be two.
    pub fn serialize_tuple(self, len: usize) -> (r: Result<Self, Error>)
        ensures
            len != 2 ==> r == Err::<Self, Error>(Error::InvalidPairLen),
            r is Err ==> *final(self.encoder) == *old(self.encoder),
            len == 2 ==> (r matches Ok(p) && p.state == self.state && *p.encoder == *old(self.encoder) && *final(p.encoder) == *final(self.encoder)),
    {
        if len == 2 {
            Ok(self)
        } else {
            Err(Error::InvalidPairLen)
        }
    }

    /// Starts the pair as a tuple struct of `len` fields: it must be two.
    pub fn serialize_tuple_struct(self, name: &str, len: usize) -> (r: Result<Self, Error>)
        ensures
            len != 2 ==> r == Err::<Self, Error>(Error::InvalidPairLen),
            r is Err ==> *final(self.encoder) == *old(self.encoder),
            len == 2 ==> (r matches Ok(p) && p.state == self.state && *p.encoder == *old(
                self.encoder,
            ) && *final(p.encoder) == *final(self.encoder)),
    {
        self.serialize_tuple(len)
    }

    /// Takes the place of the next element: the key, then the value. A third
    /// element is refused with `InvalidPairLen`.
    pub fn next_element(&mut self) -> (r: Result<State, Error>)
        ensures
            *final(self).encoder == *old(self).encoder,
            match old(self).state {
                State::Key => r == Ok::<State, Error>(State::Key) && final(self).state
                    == State::Value,
                State::Value => r == Ok::<State, Error>(State::Value) && final(self).state
                    == State::Done,
                State::Done => r == Err::<State, Error>(Error::InvalidPairLen)
                    && final(self).state == State::Done,
            },
    {
        match self.state {
            State::Key => {
                self.state = State::Value;
                Ok(State::Key)
            },
            State::Value => {
                self.state = State::Done;
                Ok(State::Value)
            },
            State::Done => Err(Error::InvalidPairLen),
        }
    }

    /// Ends the pair: both elements must have been written, else
    /// `InvalidPairLen`.
    pub fn end(self) -> (r: Result<(), Error>)
        ensures
            self.state is Done ==> r == Ok::<(), Error>(()),
            !(self.state is Done) ==> r == Err::<(), Error>(Error::InvalidPairLen),
    {
        match self.state {
            State::Done => Ok(()),
            _ => Err(Error::InvalidPairLen),
        }
    }

    /// An absent pair: nothing is written.
    pub fn serialize_none(self) -> (r: Result<(), Error>)
        ensures
            r == Ok::<(), Error>(()),
            *final(self.encoder) == *old(self.encoder),
    {
        Ok(())
    }

    /// Refuses anything that is not a pair: a scalar, a unit, a map, a
    /// struct or an enum variant.
    pub fn serialize_invalid<U>(self) -> (r: Result<U, Error>)
        ensures
            r == Err::<U, Error>(Error::InvalidPair),
            *final(self.encoder) == *old(self.encoder),
    {
        Err(Error::InvalidPair)
    }
}

} // verus!
