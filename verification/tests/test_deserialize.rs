use std::borrow::Cow;

use serde_urlencoded_bytes::de::encoding::{Part, PairIter};
use serde_urlencoded_bytes::de::{Deserializer, Error};
use serde_urlencoded_bytes::ser::encoding::Encoder;

/// The pairs of a body, as owned bytes.
fn read(input: &[u8]) -> Vec<(Vec<u8>, Vec<u8>)> {
    Deserializer::new(input)
        .0
        .collect_pairs()
        .into_iter()
        .map(|(k, v)| (k.inner().into_owned(), v.inner().into_owned()))
        .collect()
}

/// The pairs of a body, as text.
fn read_str(input: &str) -> Vec<(String, String)> {
    Deserializer::new(input.as_bytes())
        .0
        .collect_pairs()
        .into_iter()
        .map(|(k, v)| (k.as_str().unwrap().to_string(), v.as_str().unwrap().to_string()))
        .collect()
}

fn s(v: &str) -> String {
    v.to_string()
}

fn b(v: &[u8]) -> Vec<u8> {
    v.to_vec()
}

#[test]
fn deserialize_toplevel() {
    // Empty sequence, unit, unit struct, None
    assert_eq!(read(b""), vec![]);

    // Sequence, Some, newtype struct
    let r: Vec<(i32, i32)> = read_str("0=0")
        .into_iter()
        .map(|(k, v)| (k.parse().unwrap(), v.parse().unwrap()))
        .collect();
    assert_eq!(r, vec![(0, 0)]);

    // Struct
    assert_eq!(read_str("a=0&b=1"), vec![(s("a"), s("0")), (s("b"), s("1"))]);
}

#[test]
fn deserialize_bool() {
    let (t, f) = (true, false);

    let input = format!("true={t}&false={f}");
    let pairs = Deserializer::new(input.as_bytes()).0.collect_pairs();
    assert_eq!(pairs[0].0.value().as_ref(), b"true");
    assert_eq!(pairs[0].1.parse_bool(), Ok(t));
    assert_eq!(pairs[1].0.value().as_ref(), b"false");
    assert_eq!(pairs[1].1.parse_bool(), Ok(f));

    let input = format!("{t}={f}&{f}={t}");
    let pairs = Deserializer::new(input.as_bytes()).0.collect_pairs();
    assert_eq!((pairs[0].0.parse_bool(), pairs[0].1.parse_bool()), (Ok(t), Ok(f)));
    assert_eq!((pairs[1].0.parse_bool(), pairs[1].1.parse_bool()), (Ok(f), Ok(t)));
}


#[test]
fn deserialize_i8() {
    let (min, max) = (<i8>::MIN, <i8>::MAX);

    let input = format!("min={min}&max={max}");
    let pairs = Deserializer::new(input.as_bytes()).0.collect_pairs();
    assert_eq!(pairs[0].0.value().as_ref(), b"min");
    assert_eq!(pairs[0].1.parse_i8(), Ok(min));
    assert_eq!(pairs[1].0.value().as_ref(), b"max");
    assert_eq!(pairs[1].1.parse_i8(), Ok(max));

    let input = format!("{max}={min}&{min}={max}");
    let pairs = Deserializer::new(input.as_bytes()).0.collect_pairs();
    assert_eq!((pairs[0].0.parse_i8(), pairs[0].1.parse_i8()), (Ok(max), Ok(min)));
    assert_eq!((pairs[1].0.parse_i8(), pairs[1].1.parse_i8()), (Ok(min), Ok(max)));
}

#[test]
fn deserialize_i16() {
    let (min, max) = (<i16>::MIN, <i16>::MAX);

    let input = format!("min={min}&max={max}");
    let pairs = Deserializer::new(input.as_bytes()).0.collect_pairs();
    assert_eq!(pairs[0].0.value().as_ref(), b"min");
    assert_eq!(pairs[0].1.parse_i16(), Ok(min));
    assert_eq!(pairs[1].0.value().as_ref(), b"max");
    assert_eq!(pairs[1].1.parse_i16(), Ok(max));

    let input = format!("{max}={min}&{min}={max}");
    let pairs = Deserializer::new(input.as_bytes()).0.collect_pairs();
    assert_eq!((pairs[0].0.parse_i16(), pairs[0].1.parse_i16()), (Ok(max), Ok(min)));
    assert_eq!((pairs[1].0.parse_i16(), pairs[1].1.parse_i16()), (Ok(min), Ok(max)));
}

#[test]
fn deserialize_i32() {
    let (min, max) = (<i32>::MIN, <i32>::MAX);

    let input = format!("min={min}&max={max}");
    let pairs = Deserializer::new(input.as_bytes()).0.collect_pairs();
    assert_eq!(pairs[0].0.value().as_ref(), b"min");
    assert_eq!(pairs[0].1.parse_i32(), Ok(min));
    assert_eq!(pairs[1].0.value().as_ref(), b"max");
    assert_eq!(pairs[1].1.parse_i32(), Ok(max));

    let input = format!("{max}={min}&{min}={max}");
    let pairs = Deserializer::new(input.as_bytes()).0.collect_pairs();
    assert_eq!((pairs[0].0.parse_i32(), pairs[0].1.parse_i32()), (Ok(max), Ok(min)));
    assert_eq!((pairs[1].0.parse_i32(), pairs[1].1.parse_i32()), (Ok(min), Ok(max)));
}

#[test]
fn deserialize_i64() {
    let (min, max) = (<i64>::MIN, <i64>::MAX);

    let input = format!("min={min}&max={max}");
    let pairs = Deserializer::new(input.as_bytes()).0.collect_pairs();
    assert_eq!(pairs[0].0.value().as_ref(), b"min");
    assert_eq!(pairs[0].1.parse_i64(), Ok(min));
    assert_eq!(pairs[1].0.value().as_ref(), b"max");
    assert_eq!(pairs[1].1.parse_i64(), Ok(max));

    let input = format!("{max}={min}&{min}={max}");
    let pairs = Deserializer::new(input.as_bytes()).0.collect_pairs();
    assert_eq!((pairs[0].0.parse_i64(), pairs[0].1.parse_i64()), (Ok(max), Ok(min)));
    assert_eq!((pairs[1].0.parse_i64(), pairs[1].1.parse_i64()), (Ok(min), Ok(max)));
}

#[test]
fn deserialize_i128() {
    let (min, max) = (<i128>::MIN, <i128>::MAX);

    let input = format!("min={min}&max={max}");
    let pairs = Deserializer::new(input.as_bytes()).0.collect_pairs();
    assert_eq!(pairs[0].0.value().as_ref(), b"min");
    assert_eq!(pairs[0].1.parse_i128(), Ok(min));
    assert_eq!(pairs[1].0.value().as_ref(), b"max");
    assert_eq!(pairs[1].1.parse_i128(), Ok(max));

    let input = format!("{max}={min}&{min}={max}");
    let pairs = Deserializer::new(input.as_bytes()).0.collect_pairs();
    assert_eq!((pairs[0].0.parse_i128(), pairs[0].1.parse_i128()), (Ok(max), Ok(min)));
    assert_eq!((pairs[1].0.parse_i128(), pairs[1].1.parse_i128()), (Ok(min), Ok(max)));
}

#[test]
fn deserialize_u8() {
    let (min, max) = (<u8>::MIN, <u8>::MAX);

    let input = format!("min={min}&max={max}");
    let pairs = Deserializer::new(input.as_bytes()).0.collect_pairs();
    assert_eq!(pairs[0].0.value().as_ref(), b"min");
    assert_eq!(pairs[0].1.parse_u8(), Ok(min));
    assert_eq!(pairs[1].0.value().as_ref(), b"max");
    assert_eq!(pairs[1].1.parse_u8(), Ok(max));

    let input = format!("{max}={min}&{min}={max}");
    let pairs = Deserializer::new(input.as_bytes()).0.collect_pairs();
    assert_eq!((pairs[0].0.parse_u8(), pairs[0].1.parse_u8()), (Ok(max), Ok(min)));
    assert_eq!((pairs[1].0.parse_u8(), pairs[1].1.parse_u8()), (Ok(min), Ok(max)));
}

#[test]
fn deserialize_u16() {
    let (min, max) = (<u16>::MIN, <u16>::MAX);

    let input = format!("min={min}&max={max}");
    let pairs = Deserializer::new(input.as_bytes()).0.collect_pairs();
    assert_eq!(pairs[0].0.value().as_ref(), b"min");
    assert_eq!(pairs[0].1.parse_u16(), Ok(min));
    assert_eq!(pairs[1].0.value().as_ref(), b"max");
    assert_eq!(pairs[1].1.parse_u16(), Ok(max));

    let input = format!("{max}={min}&{min}={max}");
    let pairs = Deserializer::new(input.as_bytes()).0.collect_pairs();
    assert_eq!((pairs[0].0.parse_u16(), pairs[0].1.parse_u16()), (Ok(max), Ok(min)));
    assert_eq!((pairs[1].0.parse_u16(), pairs[1].1.parse_u16()), (Ok(min), Ok(max)));
}

#[test]
fn deserialize_u32() {
    let (min, max) = (<u32>::MIN, <u32>::MAX);

    let input = format!("min={min}&max={max}");
    let pairs = Deserializer::new(input.as_bytes()).0.collect_pairs();
    assert_eq!(pairs[0].0.value().as_ref(), b"min");
    assert_eq!(pairs[0].1.parse_u32(), Ok(min));
    assert_eq!(pairs[1].0.value().as_ref(), b"max");
    assert_eq!(pairs[1].1.parse_u32(), Ok(max));

    let input = format!("{max}={min}&{min}={max}");
    let pairs = Deserializer::new(input.as_bytes()).0.collect_pairs();
    assert_eq!((pairs[0].0.parse_u32(), pairs[0].1.parse_u32()), (Ok(max), Ok(min)));
    assert_eq!((pairs[1].0.parse_u32(), pairs[1].1.parse_u32()), (Ok(min), Ok(max)));
}

#[test]
fn deserialize_u64() {
    let (min, max) = (<u64>::MIN, <u64>::MAX);

    let input = format!("min={min}&max={max}");
    let pairs = Deserializer::new(input.as_bytes()).0.collect_pairs();
    assert_eq!(pairs[0].0.value().as_ref(), b"min");
    assert_eq!(pairs[0].1.parse_u64(), Ok(min));
    assert_eq!(pairs[1].0.value().as_ref(), b"max");
    assert_eq!(pairs[1].1.parse_u64(), Ok(max));

    let input = format!("{max}={min}&{min}={max}");
    let pairs = Deserializer::new(input.as_bytes()).0.collect_pairs();
    assert_eq!((pairs[0].0.parse_u64(), pairs[0].1.parse_u64()), (Ok(max), Ok(min)));
    assert_eq!((pairs[1].0.parse_u64(), pairs[1].1.parse_u64()), (Ok(min), Ok(max)));
}

#[test]
fn deserialize_u128() {
    let (min, max) = (<u128>::MIN, <u128>::MAX);

    let input = format!("min={min}&max={max}");
    let pairs = Deserializer::new(input.as_bytes()).0.collect_pairs();
    assert_eq!(pairs[0].0.value().as_ref(), b"min");
    assert_eq!(pairs[0].1.parse_u128(), Ok(min));
    assert_eq!(pairs[1].0.value().as_ref(), b"max");
    assert_eq!(pairs[1].1.parse_u128(), Ok(max));

    let input = format!("{max}={min}&{min}={max}");
    let pairs = Deserializer::new(input.as_bytes()).0.collect_pairs();
    assert_eq!((pairs[0].0.parse_u128(), pairs[0].1.parse_u128()), (Ok(max), Ok(min)));
    assert_eq!((pairs[1].0.parse_u128(), pairs[1].1.parse_u128()), (Ok(min), Ok(max)));
}

#[test]
fn deserialize_char() {
    assert_eq!(read_str("char=x"), vec![(s("char"), s("x"))]);
    assert_eq!(read_str("x=char"), vec![(s("x"), s("char"))]);
    assert_eq!(read_str("%26=+"), vec![(s("&"), s(" "))]);
    assert_eq!(read_str("fire=%F0%9F%94%A5"), vec![(s("fire"), s("🔥"))]);

    let pairs = Deserializer::new(b"invalid=%f0").0.collect_pairs();
    assert!(pairs[0].1.as_str().is_err());
    // A char is read from text of exactly one char; these are not
    assert_ne!(read_str("len=abc")[0].1.chars().count(), 1);
    assert_ne!(read_str("len=")[0].1.chars().count(), 1);
}

#[test]
fn deserialize_str() {
    assert_eq!(read_str("abc=xyz"), vec![(s("abc"), s("xyz"))]);
    assert_eq!(read_str("abc="), vec![(s("abc"), s(""))]);
    assert_eq!(read_str("=xyz"), vec![(s(""), s("xyz"))]);
    assert_eq!(read_str("v====="), vec![(s("v"), s("===="))]);

    // Decoded parts cannot be borrowed from the input
    let pairs = Deserializer::new(b"can+t=clon+e").0.collect_pairs();
    assert!(matches!(pairs[0].0.value(), Cow::Owned(_)));
    assert!(matches!(pairs[0].1.value(), Cow::Owned(_)));
    let pairs = Deserializer::new(b"abc=xyz").0.collect_pairs();
    assert!(matches!(pairs[0].0.value(), Cow::Borrowed(_)));
    assert!(matches!(pairs[0].1.value(), Cow::Borrowed(_)));
}

#[test]
fn deserialize_string() {
    assert_eq!(read_str("abc=xyz"), vec![(s("abc"), s("xyz"))]);
    assert_eq!(read_str("abc="), vec![(s("abc"), s(""))]);
    assert_eq!(read_str("=xyz"), vec![(s(""), s("xyz"))]);

    assert_eq!(read_str("%20%26+=%00%01"), vec![(s(" & "), s("\0\x01"))]);
    assert_eq!(read_str("%0%58%0=%%58%"), vec![(s("%0X%0"), s("%X%"))]);
    assert_eq!(read_str("%+%0+=%5+%58"), vec![(s("% %0 "), s("%5 X"))]);

    let pairs = Deserializer::new(b"%F0=%FB").0.collect_pairs();
    assert!(pairs[0].0.as_str().is_err());
    assert!(pairs[0].1.as_str().is_err());
}

#[test]
fn deserialize_bytes() {
    assert_eq!(read(b"abc=xyz"), vec![(b(b"abc"), b(b"xyz"))]);
    assert_eq!(read(b"=xyz"), vec![(b(b""), b(b"xyz"))]);
    assert_eq!(read(b"abc="), vec![(b(b"abc"), b(b""))]);
}

#[test]
fn deserialize_byte_buf() {
    assert_eq!(read(b"abc=xyz"), vec![(b(b"abc"), b(b"xyz"))]);
    assert_eq!(read(b"=xyz"), vec![(b(b""), b(b"xyz"))]);
    assert_eq!(read(b"abc="), vec![(b(b"abc"), b(b""))]);

    assert_eq!(
        read(b"%f0%F1%f2%F3=%ea%Eb%eC%ED"),
        vec![(b(b"\xF0\xF1\xF2\xF3"), b(b"\xEA\xEB\xEC\xED"))]
    );
}

#[test]
fn deserialize_option() {
    assert_eq!(read_str("a=a&b=b"), vec![(s("a"), s("a")), (s("b"), s("b"))]);
    assert_eq!(read_str("a=a"), vec![(s("a"), s("a"))]);
    assert_eq!(read_str("b=b"), vec![(s("b"), s("b"))]);
    assert_eq!(read_str(""), vec![]);
}

#[test]
fn deserialize_unit() {
    assert_eq!(read(b""), vec![]);
    assert_eq!(read(b"&"), vec![]);
    assert_eq!(read(b"&&"), vec![]);

    assert_eq!(read(b"value=10"), vec![(b(b"value"), b(b"10"))]);
    assert_eq!(read(b"value"), vec![(b(b"value"), b(b""))]);

    assert!(Deserializer::new(b"").is_empty());
    assert!(Deserializer::new(b"&&").is_empty());
    assert!(!Deserializer::new(b"value=10").is_empty());
    assert!(!Deserializer::new(b"&value").is_empty());
}

#[test]
fn deserialize_unit_struct() {
    assert_eq!(read(b""), vec![]);
    assert_eq!(read(b"&"), vec![]);
    assert_eq!(read(b"&&"), vec![]);
}

#[test]
fn deserialize_newtype_struct() {
    assert_eq!(read_str("a=b"), vec![(s("a"), s("b"))]);
    let r: Vec<(bool, i32)> = read_str("true=0")
        .into_iter()
        .map(|(k, v)| (k.parse().unwrap(), v.parse().unwrap()))
        .collect();
    assert_eq!(r, vec![(true, 0)]);
}

#[test]
fn deserialize_tuple_struct() {
    assert_eq!(read_str("a=b"), vec![(s("a"), s("b"))]);
    assert_eq!(read(b"").len(), 0);
}

#[test]
fn deserialize_enum() {
    assert_eq!(read_str("UnitA=UnitB"), vec![(s("UnitA"), s("UnitB"))]);
    assert_eq!(read_str("x=Newtype"), vec![(s("x"), s("Newtype"))]);
}

#[test]
fn parse_errors() {
    let pairs = Deserializer::new(b"a=300&b=-1&c=%2b7&d=%ff&e=yes&f=&g=-").0.collect_pairs();
    assert!(matches!(pairs[0].1.parse_u8(), Err(Error::ParseInt(_))));
    assert_eq!(pairs[0].1.parse_u16(), Ok(300));
    assert!(matches!(pairs[1].1.parse_u32(), Err(Error::ParseInt(_))));
    assert_eq!(pairs[1].1.parse_i32(), Ok(-1));
    assert_eq!(pairs[2].1.parse_u64(), Ok(7));
    let spaced = Deserializer::new(b"c=+7").0.collect_pairs();
    assert!(matches!(spaced[0].1.parse_u64(), Err(Error::ParseInt(_))));
    assert!(matches!(pairs[3].1.parse_i8(), Err(Error::Utf8(_))));
    assert!(matches!(pairs[3].1.parse_bool(), Err(Error::Utf8(_))));
    assert!(matches!(pairs[4].1.parse_bool(), Err(Error::ParseBool(_))));
    assert!(matches!(pairs[5].1.parse_i64(), Err(Error::ParseInt(_))));
    assert!(matches!(pairs[6].1.parse_i128(), Err(Error::ParseInt(_))));
}

#[test]
fn pair_iter_skips_empty_sequences() {
    let mut iter = PairIter(b"&&a=1&&b&");
    let (k, v) = iter.next().unwrap();
    assert_eq!((k.value().as_ref(), v.value().as_ref()), (&b"a"[..], &b"1"[..]));
    let (k, v) = iter.next().unwrap();
    assert_eq!((k.value().as_ref(), v.value().as_ref()), (&b"b"[..], &b""[..]));
    assert!(iter.next().is_none());
    assert!(iter.next().is_none());
}

#[test]
fn part_decode() {
    assert_eq!(Part::decode(b"a+b%41%4a%zz%").inner().as_ref(), b"a bAJ%zz%");
    assert!(matches!(Part::decode(b"plain%").inner(), Cow::Borrowed(_)));
    assert!(matches!(Part::decode(b"plain").value(), Cow::Borrowed(_)));
    assert!(matches!(Part::decode(b"%41").inner(), Cow::Owned(_)));
    assert_eq!(Part::empty().inner().as_ref(), b"");
}

#[test]
fn written_pairs_read_back() {
    let written: Vec<(&[u8], Option<&[u8]>)> = vec![
        (b"k 1", Some(b"v&=1")),
        (b"", Some(b"")),
        (b"\xff\x00", None),
        (b"", None),
        (b"%+", Some(b"+%41")),
    ];
    let mut enc = Encoder::new(Vec::new());
    for (k, v) in &written {
        enc.push_key(k).unwrap();
        match v {
            Some(v) => enc.push_value(v).unwrap(),
            None => enc.push_empty_value().unwrap(),
        }
    }
    let body = enc.finish().unwrap();
    let expected: Vec<(Vec<u8>, Vec<u8>)> = written
        .iter()
        .filter(|(k, v)| !(k.is_empty() && v.is_none()))
        .map(|(k, v)| (k.to_vec(), v.unwrap_or(b"").to_vec()))
        .collect();
    assert_eq!(read(&body), expected);
}

#[test]
fn readme_example() {
    let mut enc = Encoder::new(Vec::new());
    enc.push_key(b"uint").unwrap();
    enc.push_value(b"10").unwrap();
    enc.push_key(b"int").unwrap();
    enc.push_value(b"-10").unwrap();
    enc.push_key(b"str").unwrap();
    enc.push_value(b"Hello, World").unwrap();
    enc.push_key(b"bytes").unwrap();
    enc.push_value(b"\xf0\x0d\xba\xbe").unwrap();
    let encoded = enc.finish().unwrap();
    assert_eq!(encoded, b"uint=10&int=-10&str=Hello%2c+World&bytes=%f0%0d%ba%be");

    assert_eq!(
        read(&encoded),
        vec![
            (b(b"uint"), b(b"10")),
            (b(b"int"), b(b"-10")),
            (b(b"str"), b(b"Hello, World")),
            (b(b"bytes"), b(b"\xf0\x0d\xba\xbe")),
        ]
    );
}
