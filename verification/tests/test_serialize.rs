use serde_urlencoded_bytes::ser::encoding::{Encoder, Target};
use serde_urlencoded_bytes::ser::keyval::{Key, KeyValMode, KeyValSerializer, Val};
use serde_urlencoded_bytes::ser::pair::{PairSerializer, State};
use serde_urlencoded_bytes::ser::{Error, Serializer};

/// A key or value, as the serde data model hands it to the serializer.
#[derive(Clone, Copy)]
enum S<'a> {
    Bool(bool),
    I8(i8),
    I16(i16),
    I32(i32),
    I64(i64),
    I128(i128),
    U8(u8),
    U16(u16),
    U32(u32),
    U64(u64),
    U128(u128),
    Char(char),
    Str(&'a str),
    Bytes(&'a [u8]),
    Unit,
    Absent,
    UnitStruct(&'a str),
    UnitVariant(&'a str, &'a str),
    Compound,
}

fn write<T: Target, M: KeyValMode<T>>(ser: KeyValSerializer<'_, T, M>, s: S) -> Result<(), Error> {
    match s {
        S::Bool(v) => ser.serialize_bool(v),
        S::I8(v) => ser.serialize_i8(v),
        S::I16(v) => ser.serialize_i16(v),
        S::I32(v) => ser.serialize_i32(v),
        S::I64(v) => ser.serialize_i64(v),
        S::I128(v) => ser.serialize_i128(v),
        S::U8(v) => ser.serialize_u8(v),
        S::U16(v) => ser.serialize_u16(v),
        S::U32(v) => ser.serialize_u32(v),
        S::U64(v) => ser.serialize_u64(v),
        S::U128(v) => ser.serialize_u128(v),
        S::Char(v) => ser.serialize_char(v),
        S::Str(v) => ser.serialize_str(v),
        S::Bytes(v) => ser.serialize_bytes(v),
        S::Unit => ser.serialize_unit(),
        S::Absent => ser.serialize_none(),
        S::UnitStruct(name) => ser.serialize_unit_struct(name),
        S::UnitVariant(name, variant) => ser.serialize_unit_variant(name, 0, variant),
        S::Compound => ser.serialize_unsupported::<()>(),
    }
}

fn key<T: Target>(enc: &mut Encoder<T>, s: S) -> Result<(), Error> {
    write(KeyValSerializer::<T, Key>::new(enc), s)
}

fn val<T: Target>(enc: &mut Encoder<T>, s: S) -> Result<(), Error> {
    write(KeyValSerializer::<T, Val>::new(enc), s)
}

/// A pair written as a sequence: the elements go to the key, then the value.
fn seq_pair<T: Target>(enc: &mut Encoder<T>, len: Option<usize>, elems: &[S]) -> Result<(), Error> {
    let mut p = PairSerializer::new(enc).serialize_seq(len)?;
    for e in elems {
        match p.next_element()? {
            State::Key => key(&mut *p.encoder, *e)?,
            _ => val(&mut *p.encoder, *e)?,
        }
    }
    p.end()
}

/// A pair written as a two-element tuple.
fn pair<T: Target>(enc: &mut Encoder<T>, k: S, v: S) -> Result<(), Error> {
    let mut p = PairSerializer::new(enc).serialize_tuple(2)?;
    p.next_element()?;
    key(&mut *p.encoder, k)?;
    p.next_element()?;
    val(&mut *p.encoder, v)?;
    p.end()
}

/// A top-level sequence of pairs.
fn pairs(list: &[(S, S)]) -> Result<String, Error> {
    let mut ser = Serializer::new(String::new());
    for (k, v) in list {
        pair(&mut ser.0, *k, *v)?;
    }
    ser.end()
}

fn ok(s: &str) -> Result<String, Error> {
    Ok(s.to_string())
}

#[test]
fn serialize_toplevel() {
    // Empty array, empty sequence, unit, unit struct, None
    assert_eq!(Serializer::new(String::new()).end(), ok(""));
    assert_eq!(pairs(&[]), ok(""));

    // Sized and unsized sequences, Some, newtype struct of pairs
    assert_eq!(pairs(&[(S::I32(0), S::I32(0))]), ok("0=0"));
    let mut ser = Serializer::new(String::new());
    seq_pair(&mut ser.0, Some(2), &[S::I32(0), S::I32(0)]).unwrap();
    assert_eq!(ser.end(), ok("0=0"));

    // Struct
    let mut ser = Serializer::new(String::new());
    ser.serialize_field_key("a").unwrap();
    val(&mut ser.0, S::Str("a")).unwrap();
    ser.serialize_field_key("b").unwrap();
    val(&mut ser.0, S::Str("b")).unwrap();
    assert_eq!(ser.end(), ok("a=a&b=b"));

    // Map
    let mut ser = Serializer::new(String::new());
    key(&mut ser.0, S::Str("a")).unwrap();
    val(&mut ser.0, S::I32(0)).unwrap();
    key(&mut ser.0, S::Str("b")).unwrap();
    val(&mut ser.0, S::I32(1)).unwrap();
    assert_eq!(ser.end(), ok("a=0&b=1"));

    // Scalars cannot stand at the top level
    assert_eq!(Serializer::new(String::new()).serialize_invalid::<String>(), Err(Error::TopLevel));
}

#[test]
fn serialize_pair() {
    // Not a pair, invalid length tuple
    let mut ser = Serializer::new(String::new());
    assert_eq!(PairSerializer::new(&mut ser.0).serialize_invalid::<()>(), Err(Error::InvalidPair));
    assert!(PairSerializer::new(&mut ser.0).serialize_tuple(3).is_err());

    // Optional pairs
    let mut ser = Serializer::new(String::new());
    pair(&mut ser.0, S::I32(0), S::I32(0)).unwrap();
    PairSerializer::new(&mut ser.0).serialize_none().unwrap();
    assert_eq!(ser.end(), ok("0=0"));

    // Sized sequences
    let mut ser = Serializer::new(String::new());
    seq_pair(&mut ser.0, Some(2), &[S::I32(0), S::I32(0)]).unwrap();
    assert_eq!(ser.end(), ok("0=0"));
    let mut ser = Serializer::new(String::new());
    assert!(seq_pair(&mut ser.0, Some(1), &[S::I32(0)]).is_err());
    let mut ser = Serializer::new(String::new());
    assert!(seq_pair(&mut ser.0, Some(3), &[S::I32(0), S::I32(0), S::I32(0)]).is_err());

    // Unsized sequences
    let mut ser = Serializer::new(String::new());
    seq_pair(&mut ser.0, None, &[S::I32(0), S::I32(0)]).unwrap();
    assert_eq!(ser.end(), ok("0=0"));
    let mut ser = Serializer::new(String::new());
    assert_eq!(seq_pair(&mut ser.0, None, &[S::I32(0)]), Err(Error::InvalidPairLen));
    let mut ser = Serializer::new(String::new());
    assert_eq!(
        seq_pair(&mut ser.0, None, &[S::I32(0), S::I32(0), S::I32(0)]),
        Err(Error::InvalidPairLen)
    );

    // Newtype struct of pair
    assert_eq!(pairs(&[(S::I32(0), S::I32(0))]), ok("0=0"));

    // Tuple struct of length 2
    let mut ser = Serializer::new(String::new());
    let mut p = PairSerializer::new(&mut ser.0).serialize_tuple_struct("Tuple", 2).unwrap();
    p.next_element().unwrap();
    key(&mut *p.encoder, S::I32(0)).unwrap();
    p.next_element().unwrap();
    val(&mut *p.encoder, S::I32(0)).unwrap();
    p.end().unwrap();
    assert_eq!(ser.end(), ok("0=0"));
}

#[test]
fn serialize_bool() {
    assert_eq!(
        pairs(&[(S::Str("true"), S::Bool(true)), (S::Str("false"), S::Bool(false))]),
        ok("true=true&false=false")
    );
    assert_eq!(
        pairs(&[(S::Bool(true), S::Bool(false)), (S::Bool(true), S::Bool(false))]),
        ok("true=false&true=false")
    );
}

fn check_num(min: S, max: S, min_text: &str, max_text: &str) {
    let s = format!("min={min_text}&max={max_text}");
    assert_eq!(pairs(&[(S::Str("min"), min), (S::Str("max"), max)]), Ok(s));
    let s = format!("{max_text}={min_text}&{min_text}={max_text}");
    assert_eq!(pairs(&[(max, min), (min, max)]), Ok(s));
}

#[test]
fn serialize_i8() {
    check_num(S::I8(i8::MIN), S::I8(i8::MAX), "-128", "127");
}

#[test]
fn serialize_i16() {
    check_num(S::I16(i16::MIN), S::I16(i16::MAX), "-32768", "32767");
}

#[test]
fn serialize_i32() {
    check_num(S::I32(i32::MIN), S::I32(i32::MAX), &i32::MIN.to_string(), &i32::MAX.to_string());
}

#[test]
fn serialize_i64() {
    check_num(S::I64(i64::MIN), S::I64(i64::MAX), &i64::MIN.to_string(), &i64::MAX.to_string());
}

#[test]
fn serialize_i128() {
    check_num(
        S::I128(i128::MIN),
        S::I128(i128::MAX),
        "-170141183460469231731687303715884105728",
        "170141183460469231731687303715884105727",
    );
}

#[test]
fn serialize_u8() {
    check_num(S::U8(u8::MIN), S::U8(u8::MAX), "0", "255");
}

#[test]
fn serialize_u16() {
    check_num(S::U16(u16::MIN), S::U16(u16::MAX), "0", "65535");
}

#[test]
fn serialize_u32() {
    check_num(S::U32(u32::MIN), S::U32(u32::MAX), "0", "4294967295");
}

#[test]
fn serialize_u64() {
    check_num(S::U64(u64::MIN), S::U64(u64::MAX), "0", "18446744073709551615");
}

#[test]
fn serialize_u128() {
    check_num(
        S::U128(u128::MIN),
        S::U128(u128::MAX),
        "0",
        "340282366920938463463374607431768211455",
    );
}

#[test]
fn serialize_char() {
    assert_eq!(pairs(&[(S::Char('x'), S::Char('y'))]), ok("x=y"));
    assert_eq!(pairs(&[(S::Char('='), S::Char('&'))]), ok("%3d=%26"));
    assert_eq!(pairs(&[(S::Char(' '), S::Char('🔥'))]), ok("+=%f0%9f%94%a5"));
}

#[test]
fn serialize_str() {
    assert_eq!(
        pairs(&[
            (S::Str("abc"), S::Str("xyz")),
            (S::Str("abc"), S::Str("")),
            (S::Str(""), S::Str("xyz")),
        ]),
        ok("abc=xyz&abc=&=xyz")
    );
    assert_eq!(
        pairs(&[(
            S::Str("ABCDEFGHIJKLMNOPQRSTUVWXYZabcdefghijklmnopqrstuvwxyz0123456789-_.~"),
            S::Str("!*'();:@&=+$,/?%#[] "),
        )]),
        ok("ABCDEFGHIJKLMNOPQRSTUVWXYZabcdefghijklmnopqrstuvwxyz0123456789-_.~=\
        %21%2a%27%28%29%3b%3a%40%26%3d%2b%24%2c%2f%3f%25%23%5b%5d+")
    );
}

#[test]
fn serialize_bytes() {
    assert_eq!(
        pairs(&[(S::Bytes(b"\xf1\xf2\xf3\xf4"), S::Bytes(b"\xea\xeb\xec\xed"))]),
        ok("%f1%f2%f3%f4=%ea%eb%ec%ed")
    );
}

#[test]
fn serialize_option() {
    // Some(v) writes v; None takes the whole pair back
    assert_eq!(pairs(&[(S::Str("some"), S::I32(0)), (S::Str("none"), S::Absent)]), ok("some=0"));
    assert_eq!(pairs(&[(S::Str("some"), S::I32(0)), (S::Str("none"), S::Absent)]), ok("some=0"));
    assert_eq!(pairs(&[(S::Absent, S::I32(0))]), Err(Error::UnsupportedKeyValType));

    // A pair whose value is None is omitted wherever it stands
    assert_eq!(pairs(&[(S::I32(1), S::Absent), (S::I32(0), S::I32(0))]), ok("0=0"));
}

#[test]
fn serialize_unit() {
    assert_eq!(pairs(&[(S::Str("null"), S::Unit), (S::Str("void"), S::Unit)]), ok("null&void"));
    assert_eq!(pairs(&[(S::Unit, S::Str("error"))]), Err(Error::UnsupportedKeyValType));
}

#[test]
fn serialize_struct() {
    assert_eq!(pairs(&[(S::Str("v"), S::Compound)]), Err(Error::UnsupportedKeyValType));

    assert_eq!(
        pairs(&[(S::Str("null"), S::UnitStruct("Unit")), (S::Str("void"), S::UnitStruct("Unit"))]),
        ok("null=Unit&void=Unit")
    );
    assert_eq!(pairs(&[(S::UnitStruct("Unit"), S::Unit)]), ok("Unit"));

    // Newtype structs stand for what they wrap
    assert_eq!(pairs(&[(S::Str("int"), S::I32(33))]), ok("int=33"));
    assert_eq!(pairs(&[(S::Str("str"), S::Str("hello"))]), ok("str=hello"));

    assert_eq!(pairs(&[(S::Str("v"), S::Compound)]), Err(Error::UnsupportedKeyValType));
}

#[test]
fn serialize_enum() {
    assert_eq!(
        pairs(&[
            (S::Str("a"), S::UnitVariant("Enum", "UnitA")),
            (S::Str("b"), S::UnitVariant("Enum", "UnitB")),
        ]),
        ok("a=UnitA&b=UnitB")
    );
    assert!(pairs(&[(S::Str("v"), S::Compound)]).is_err());
}

#[test]
fn append_string() {
    // An encoder writes after what the target holds ...
    let mut ser = Serializer::new("->".to_string());
    pair(&mut ser.0, S::I32(0), S::I32(0)).unwrap();
    let v = ser.end().unwrap();
    assert_eq!(v, "->0=0");

    // ... and gives it back untouched when the body is abandoned.
    let mut ser = Serializer::new(v);
    assert!(pair(&mut ser.0, S::Str("don't write"), S::Compound).is_err());
    let v = ser.0.cancel();
    assert_eq!(v, "->0=0");
}

#[test]
fn append_vec() {
    let mut ser = Serializer::new(b"->".to_vec());
    pair(&mut ser.0, S::I32(0), S::I32(0)).unwrap();
    let v = ser.end().unwrap();
    assert_eq!(v, b"->0=0");

    let ser = Serializer::new(v);
    assert!(ser.serialize_invalid::<Vec<u8>>().is_err());

    let mut ser = Serializer::new(b"->0=0".to_vec());
    assert!(pair(&mut ser.0, S::Str("don't write"), S::Compound).is_err());
    assert_eq!(ser.0.cancel(), b"->0=0");
}

#[test]
fn encoder_alternation() {
    let mut enc = Encoder::new(String::new());
    assert_eq!(enc.push_value(b"v"), Err(Error::ExpectedKey));
    let mut enc2 = Encoder::new(String::new());
    assert_eq!(enc2.push_empty_value(), Err(Error::ExpectedKey));
    assert_eq!(enc2.push_none_value(), Err(Error::ExpectedKey));

    let mut enc = Encoder::new(String::new());
    enc.push_key(b"k").unwrap();
    assert_eq!(enc.push_key(b"again"), Err(Error::ExpectedValue));
    let mut enc = Encoder::new(String::new());
    enc.push_key(b"k").unwrap();
    assert_eq!(enc.finish(), Err(Error::ExpectedValue));
}

#[test]
fn encoder_none_value_takes_pair_back() {
    let mut enc = Encoder::new(Vec::new());
    enc.push_key(b"a").unwrap();
    enc.push_value(b"1").unwrap();
    enc.push_key(b"b").unwrap();
    enc.push_none_value().unwrap();
    enc.push_key(b"c").unwrap();
    enc.push_empty_value().unwrap();
    assert_eq!(enc.finish(), Ok(b"a=1&c".to_vec()));

    // A first pair taken back leaves no trace either
    let mut enc = Encoder::new(Vec::new());
    enc.push_key(b"none").unwrap();
    enc.push_none_value().unwrap();
    enc.push_key(b"a").unwrap();
    enc.push_value(b"1").unwrap();
    assert_eq!(enc.finish(), Ok(b"a=1".to_vec()));

    let mut enc = Encoder::new(b"->".to_vec());
    enc.push_key(b"x").unwrap();
    enc.push_none_value().unwrap();
    enc.push_key(b"y").unwrap();
    enc.push_none_value().unwrap();
    enc.push_key(b"a").unwrap();
    enc.push_value(b"1").unwrap();
    assert_eq!(enc.finish(), Ok(b"->a=1".to_vec()));

    // A taken-back key after an earlier pair keeps the separator of the next
    // pair, even when that earlier pair wrote nothing
    let mut enc = Encoder::new(Vec::new());
    enc.push_key(b"").unwrap();
    enc.push_empty_value().unwrap();
    enc.push_key(b"k").unwrap();
    enc.push_none_value().unwrap();
    enc.push_key(b"b").unwrap();
    enc.push_value(b"1").unwrap();
    assert_eq!(enc.finish(), Ok(b"&b=1".to_vec()));
}

#[test]
fn encoder_cancel_restores_target() {
    let mut enc = Encoder::new("é=".to_string());
    enc.push_key("ü".as_bytes()).unwrap();
    enc.push_value(b" x").unwrap();
    assert_eq!(enc.cancel(), "é=");

    let mut enc = Encoder::new("é".to_string());
    enc.push_key("ü".as_bytes()).unwrap();
    enc.push_value(b" x").unwrap();
    assert_eq!(enc.finish(), Ok("é%c3%bc=+x".to_string()));
}
