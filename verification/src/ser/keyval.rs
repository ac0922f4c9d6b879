//! Writing one key or one value: its text form, pushed through the encoder
//! as a key or as a value.

use std::marker::PhantomData;
use vstd::prelude::*;
use vstd::string::StringSliceAdditionalSpecFns;
use super::encoding::{Target, Encoder, char_utf8, utf8_bytes};
use super::error::Error;

verus! {

/// The decimal digits of a natural number.
pub open spec fn digits(n: nat) -> Seq<u8>
    decreases n,
{
    if n < 10 {
        seq![(48 + n) as u8]
    } else {
        digits(n / 10) + seq![(48 + n % 10) as u8]
    }
}

/// The decimal text of an integer: its digits, after a `-` when negative.
pub open spec fn decimal(n: int) -> Seq<u8> {
    if n < 0 {
        seq![45u8] + digits((-n) as nat)
    } else {
        digits(n as nat)
    }
}

/// The text of a boolean: `true` or `false`.
pub open spec fn bool_text(v: bool) -> Seq<u8> {
    if v {
        seq![116u8, 114u8, 117u8, 101u8]
    } else {
        seq![102u8, 97u8, 108u8, 115u8, 101u8]
    }
}

/// `itoa::Buffer::format` on an `i128`: the decimal digits of `v`, after a
/// `-` when `v` is negative, with no leading zeros.
#[verifier::external_body]
fn format_i128(v: i128) -> (r: Vec<u8>)
    ensures
        r@ == decimal(v as int),
{
    itoa::Buffer::new().format(v).as_bytes().to_vec()
}

/// `itoa::Buffer::format` on a `u128`: the decimal digits of `v`, with no
/// leading zeros.
#[verifier::external_body]
fn format_u128(v: u128) -> (r: Vec<u8>)
    ensures
        r@ == decimal(v as int),
{
    itoa::Buffer::new().format(v).as_bytes().to_vec()
}

/// Whether text is written as a key or as a value, and what the unit and
/// the absent value mean in that place.
pub trait KeyValMode<T: Target> {
    /// The effect of `push`.
    spec fn pushed(old: Encoder<T>, new: Encoder<T>, text: Seq<u8>, r: Result<(), Error>) -> bool;

    /// The effect of `serialize_unit`.
    spec fn unit_pushed(old: Encoder<T>, new: Encoder<T>, r: Result<(), Error>) -> bool;

    /// The effect of `serialize_none`.
    spec fn none_pushed(old: Encoder<T>, new: Encoder<T>, r: Result<(), Error>) -> bool;

    /// Writes `value` in this place.
    fn push(encoder: &mut Encoder<T>, value: &[u8]) -> (r: Result<(), Error>)
        requires
            old(encoder).wf(),
        ensures
            final(encoder).wf(),
            Self::pushed(*old(encoder), *final(encoder), value@, r),
    ;

    /// Writes the unit in this place.
    fn serialize_unit(encoder: &mut Encoder<T>) -> (r: Result<(), Error>)
        requires
            old(encoder).wf(),
        ensures
            final(encoder).wf(),
            Self::unit_pushed(*old(encoder), *final(encoder), r),
    ;

    /// Writes an absent value in this place.
    fn serialize_none(encoder: &mut Encoder<T>) -> (r: Result<(), Error>)
        requires
            old(encoder).wf(),
        ensures
            final(encoder).wf(),
            Self::none_pushed(*old(encoder), *final(encoder), r),
    ;
}

/// Text is written as a key; a key can be neither unit nor absent.
pub struct Key;

impl<T: Target> KeyValMode<T> for Key {
    open spec fn pushed(old: Encoder<T>, new: Encoder<T>, text: Seq<u8>, r: Result<(), Error>) -> bool {
        Encoder::key_step(old, new, text, r)
    }

    open spec fn unit_pushed(old: Encoder<T>, new: Encoder<T>, r: Result<(), Error>) -> bool {
        r == Err::<(), Error>(Error::UnsupportedKeyValType) && new == old
    }

    open spec fn none_pushed(old: Encoder<T>, new: Encoder<T>, r: Result<(), Error>) -> bool {
        r == Err::<(), Error>(Error::UnsupportedKeyValType) && new == old
    }

    fn push(encoder: &mut Encoder<T>, value: &[u8]) -> (r: Result<(), Error>) {
        encoder.push_key(value)
    }

    fn serialize_unit(encoder: &mut Encoder<T>) -> (r: Result<(), Error>) {
        Err(Error::UnsupportedKeyValType)
    }

    fn serialize_none(encoder: &mut Encoder<T>) -> (r: Result<(), Error>) {
        Err(Error::UnsupportedKeyValType)
    }
}

/// Text is written as a value; the unit ends the pair without a value and an
/// absent value takes the whole pair back.
pub struct Val;

impl<T: Target> KeyValMode<T> for Val {
    open spec fn pushed(old: Encoder<T>, new: Encoder<T>, text: Seq<u8>, r: Result<(), Error>) -> bool {
        Encoder::value_step(old, new, text, r)
    }

    open spec fn unit_pushed(old: Encoder<T>, new: Encoder<T>, r: Result<(), Error>) -> bool {
        Encoder::empty_step(old, new, r)
    }

    open spec fn none_pushed(old: Encoder<T>, new: Encoder<T>, r: Result<(), Error>) -> bool {
        Encoder::none_step(old, new, r)
    }

    fn push(encoder: &mut Encoder<T>, value: &[u8]) -> (r: Result<(), Error>) {
        encoder.push_value(value)
    }

    fn serialize_unit(encoder: &mut Encoder<T>) -> (r: Result<(), Error>) {
        encoder.push_empty_value()
    }

    fn serialize_none(encoder: &mut Encoder<T>) -> (r: Result<(), Error>) {
        encoder.push_none_value()
    }
}

/// Writes one key (`M` = `Key`) or one value (`M` = `Val`).
pub struct KeyValSerializer<'a, T: Target, M: KeyValMode<T>>(
    pub &'a mut Encoder<T>,
    pub PhantomData<M>,
);

/// Writes one key.
pub type KeySerializer<'a, T> = KeyValSerializer<'a, T, Key>;

/// Writes one value.
pub type ValSerializer<'a, T> = KeyValSerializer<'a, T, Val>;

impl<'a, T: Target, M: KeyValMode<T>> KeyValSerializer<'a, T, M> {
    /// A serializer that writes through `encoder`.
    pub fn new(encoder: &'a mut Encoder<T>) -> (r: Self)
        ensures
            *r.0 == *old(encoder),
            *final(r.0) == *final(encoder),
    {
        KeyValSerializer(encoder, PhantomData)
    }

    fn push(self, value: &[u8]) -> (r: Result<(), Error>)
        requires
            old(self.0).wf(),
        ensures
            final(self.0).wf(),
            M::pushed(*old(self.0), *final(self.0), value@, r),
    {
        M::push(self.0, value)
    }

    fn push_str(self, value: &str) -> (r: Result<(), Error>)
        requires
            old(self.0).wf(),
        ensures
            final(self.0).wf(),
            M::pushed(*old(self.0), *final(self.0), value.spec_bytes(), r),
    {
        self.push(value.as_bytes())
    }

    /// Writes `true` or `false`.
    pub fn serialize_bool(self, v: bool) -> (r: Result<(), Error>)
        requires
            old(self.0).wf(),
        ensures
            final(self.0).wf(),
            M::pushed(*old(self.0), *final(self.0), bool_text(v), r),
    {
        let text: Vec<u8> = if v {
            vec![116u8, 114u8, 117u8, 101u8]
        } else {
            vec![102u8, 97u8, 108u8, 115u8, 101u8]
        };
        assert(text@ =~= bool_text(v));
        self.push(text.as_slice())
    }

    fn push_signed(self, v: i128) -> (r: Result<(), Error>)
        requires
            old(self.0).wf(),
        ensures
            final(self.0).wf(),
            M::pushed(*old(self.0), *final(self.0), decimal(v as int), r),
    {
        let text = format_i128(v);
        self.push(text.as_slice())
    }

    fn push_unsigned(self, v: u128) -> (r: Result<(), Error>)
        requires
            old(self.0).wf(),
        ensures
            final(self.0).wf(),
            M::pushed(*old(self.0), *final(self.0), decimal(v as int), r),
    {
        let text = format_u128(v);
        self.push(text.as_slice())
    }

    /// Writes the decimal text of `v`.
    pub fn serialize_i8(self, v: i8) -> (r: Result<(), Error>)
        requires
            old(self.0).wf(),
        ensures
            final(self.0).wf(),
            M::pushed(*old(self.0), *final(self.0), decimal(v as int), r),
    {
        self.push_signed(v as i128)
    }

    /// Writes the decimal text of `v`.
    pub fn serialize_i16(self, v: i16) -> (r: Result<(), Error>)
        requires
            old(self.0).wf(),
        ensures
            final(self.0).wf(),
            M::pushed(*old(self.0), *final(self.0), decimal(v as int), r),
    {
        self.push_signed(v as i128)
    }

    /// Writes the decimal text of `v`.
    pub fn serialize_i32(self, v: i32) -> (r: Result<(), Error>)
        requires
            old(self.0).wf(),
        ensures
            final(self.0).wf(),
            M::pushed(*old(self.0), *final(self.0), decimal(v as int), r),
    {
        self.push_signed(v as i128)
    }

    /// Writes the decimal text of `v`.
    pub fn serialize_i64(self, v: i64) -> (r: Result<(), Error>)
        requires
            old(self.0).wf(),
        ensures
            final(self.0).wf(),
            M::pushed(*old(self.0), *final(self.0), decimal(v as int), r),
    {
        self.push_signed(v as i128)
    }

    /// Writes the decimal text of `v`.
    pub fn serialize_i128(self, v: i128) -> (r: Result<(), Error>)
        requires
            old(self.0).wf(),
        ensures
            final(self.0).wf(),
            M::pushed(*old(self.0), *final(self.0), decimal(v as int), r),
    {
        self.push_signed(v)
    }

    /// Writes the decimal text of `v`.
    pub fn serialize_u8(self, v: u8) -> (r: Result<(), Error>)
        requires
            old(self.0).wf(),
        ensures
            final(self.0).wf(),
            M::pushed(*old(self.0), *final(self.0), decimal(v as int), r),
    {
        self.push_unsigned(v as u128)
    }

    /// Writes the decimal text of `v`.
    pub fn serialize_u16(self, v: u16) -> (r: Result<(), Error>)
        requires
            old(self.0).wf(),
        ensures
            final(self.0).wf(),
            M::pushed(*old(self.0), *final(self.0), decimal(v as int), r),
    {
        self.push_unsigned(v as u128)
    }

    /// Writes the decimal text of `v`.
    pub fn serialize_u32(self, v: u32) -> (r: Result<(), Error>)
        requires
            old(self.0).wf(),
        ensures
            final(self.0).wf(),
            M::pushed(*old(self.0), *final(self.0), decimal(v as int), r),
    {
        self.push_unsigned(v as u128)
    }

    /// Writes the decimal text of `v`.
    pub fn serialize_u64(self, v: u64) -> (r: Result<(), Error>)
        requires
            old(self.0).wf(),
        ensures
            final(self.0).wf(),
            M::pushed(*old(self.0), *final(self.0), decimal(v as int), r),
    {
        self.push_unsigned(v as u128)
    }

    /// Writes the decimal text of `v`.
    pub fn serialize_u128(self, v: u128) -> (r: Result<(), Error>)
        requires
            old(self.0).wf(),
        ensures
            final(self.0).wf(),
            M::pushed(*old(self.0), *final(self.0), decimal(v as int), r),
    {
        self.push_unsigned(v)
    }

    /// Writes the UTF-8 encoding of `v`.
    pub fn serialize_char(self, v: char) -> (r: Result<(), Error>)
        requires
            old(self.0).wf(),
        ensures
            final(self.0).wf(),
            M::pushed(*old(self.0), *final(self.0), char_utf8(v), r),
    {
        let text = utf8_bytes(v);
        self.push(text.as_slice())
    }

    /// Writes the UTF-8 bytes of `v`.
    pub fn serialize_str(self, v: &str) -> (r: Result<(), Error>)
        requires
            old(self.0).wf(),
        ensures
            final(self.0).wf(),
            M::pushed(*old(self.0), *final(self.0), v.spec_bytes(), r),
    {
        self.push_str(v)
    }

    /// Writes the bytes `v`.
    pub fn serialize_bytes(self, v: &[u8]) -> (r: Result<(), Error>)
        requires
            old(self.0).wf(),
        ensures
            final(self.0).wf(),
            M::pushed(*old(self.0), *final(self.0), v@, r),
    {
        self.push(v)
    }

    /// Writes an absent value.
    pub fn serialize_none(self) -> (r: Result<(), Error>)
        requires
            old(self.0).wf(),
        ensures
            final(self.0).wf(),
            M::none_pushed(*old(self.0), *final(self.0), r),
    {
        M::serialize_none(self.0)
    }

    /// Writes the unit.
    pub fn serialize_unit(self) -> (r: Result<(), Error>)
        requires
            old(self.0).wf(),
        ensures
            final(self.0).wf(),
            M::unit_pushed(*old(self.0), *final(self.0), r),
    {
        M::serialize_unit(self.0)
    }

    /// Writes a unit struct as its name.
    pub fn serialize_unit_struct(self, name: &str) -> (r: Result<(), Error>)
        requires
            old(self.0).wf(),
        ensures
            final(self.0).wf(),
            M::pushed(*old(self.0), *final(self.0), name.spec_bytes(), r),
    {
        self.push_str(name)
    }

    /// Writes a unit variant as its name.
    pub fn serialize_unit_variant(self, name: &str, variant_index: u32, variant: &str) -> (r: Result<
        (),
        Error,
    >)
        requires
            old(self.0).wf(),
        ensures
            final(self.0).wf(),
            M::pushed(*old(self.0), *final(self.0), variant.spec_bytes(), r),
    {
        self.push_str(variant)
    }

    /// Refuses a value with no text form: a struct, a tuple, a sequence, a
    /// map, or an enum variant that carries data.
    pub fn serialize_unsupported<U>(self) -> (r: Result<U, Error>)
        ensures
            r == Err::<U, Error>(Error::UnsupportedKeyValType),
            *final(self.0) == *old(self.0),
    {
        Err(Error::UnsupportedKeyValType)
    }
}

} // verus!
