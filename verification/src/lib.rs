//! Serializer and deserializer for the `x-www-form-urlencoded` format that
//! carries raw byte strings as well as UTF-8 text.

pub mod format;
pub mod de;
pub mod ser;

