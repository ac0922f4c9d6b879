//! The `x-www-form-urlencoded` format as mathematics: how one byte string is
//! percent-encoded and decoded, how a body splits into key-value pairs, and
//! the laws that tie writing and reading together.

use vstd::prelude::*;

verus! {

pub const AMP: u8 = 38;
pub const EQ: u8 = 61;
pub const PLUS: u8 = 43;
pub const PERCENT: u8 = 37;
pub const SPACE: u8 = 32;

/// The value of a hexadecimal digit, in either case.
pub open spec fn hex_value(b: u8) -> Option<u8> {
    if 48 <= b <= 57 {
        Some((b - 48) as u8)
    } else if 97 <= b <= 102 {
        Some((b - 87) as u8)
    } else if 65 <= b <= 70 {
        Some((b - 55) as u8)
    } else {
        None
    }
}

/// An escape starts at `i`: a `+`, or a `%` followed by two hex digits.
pub open spec fn escape_at(s: Seq<u8>, i: int) -> bool {
    &&& 0 <= i < s.len()
    &&& (s[i] == PLUS || (s[i] == PERCENT && i + 2 < s.len() && hex_value(s[i + 1]) is Some
        && hex_value(s[i + 2]) is Some))
}

/// How many input bytes the escape at `i` takes.
pub open spec fn escape_len(s: Seq<u8>, i: int) -> int {
    if s[i] == PLUS {
        1
    } else {
        3
    }
}

/// The byte that the escape at `i` stands for.
pub open spec fn escape_byte(s: Seq<u8>, i: int) -> u8 {
    if s[i] == PLUS {
        SPACE
    } else {
        (16 * hex_value(s[i + 1]).unwrap() + hex_value(s[i + 2]).unwrap()) as u8
    }
}

/// Percent-decoding, read from left to right: each escape becomes the byte
/// it stands for, every other byte stays as it is.
pub open spec fn decode_bytes(s: Seq<u8>) -> Seq<u8>
    decreases s.len(),
{
    if s.len() == 0 {
        seq![]
    } else if escape_at(s, 0) {
        seq![escape_byte(s, 0)] + decode_bytes(s.skip(escape_len(s, 0)))
    } else {
        seq![s[0]] + decode_bytes(s.skip(1))
    }
}

/// No escape starts anywhere in `s`, so decoding leaves it as it is.
pub open spec fn is_plain(s: Seq<u8>) -> bool {
    forall|i: int| 0 <= i < s.len() ==> !#[trigger] escape_at(s, i)
}

/// The bytes written as they are: `-`, `.`, digits, letters, `_` and `~`.
pub open spec fn is_unreserved(b: u8) -> bool {
    ||| b == 45
    ||| b == 46
    ||| 48 <= b <= 57
    ||| 65 <= b <= 90
    ||| b == 95
    ||| 97 <= b <= 122
    ||| b == 126
}

/// A lower-case hexadecimal digit for a value below 16.
pub open spec fn hex_digit(n: u8) -> u8 {
    if n < 10 {
        (n + 48) as u8
    } else {
        (n + 87) as u8
    }
}

/// How one byte is written: as itself, as `+` for a space, or as `%` and two
/// lower-case hex digits.
pub open spec fn encode_byte(b: u8) -> Seq<u8> {
    if is_unreserved(b) {
        seq![b]
    } else if b == SPACE {
        seq![PLUS]
    } else {
        seq![PERCENT, hex_digit(b / 16), hex_digit(b % 16)]
    }
}

/// Percent-encoding of a byte string.
pub open spec fn encode_bytes(s: Seq<u8>) -> Seq<u8>
    decreases s.len(),
{
    if s.len() == 0 {
        seq![]
    } else {
        encode_byte(s[0]) + encode_bytes(s.skip(1))
    }
}

/// The position of the first `b` in `s`.
pub open spec fn first_index(s: Seq<u8>, b: u8) -> Option<int>
    decreases s.len(),
{
    if s.len() == 0 {
        None
    } else if s[0] == b {
        Some(0)
    } else {
        match first_index(s.skip(1), b) {
            Some(i) => Some(i + 1),
            None => None,
        }
    }
}

/// The part of `s` before the first `b` and the part after it; all of `s`
/// and nothing when there is no `b`.
pub open spec fn split_first(s: Seq<u8>, b: u8) -> (Seq<u8>, Seq<u8>) {
    match first_index(s, b) {
        Some(i) => (s.take(i), s.skip(i + 1)),
        None => (s, seq![]),
    }
}

/// One non-empty sequence of a body as a pair: key and value split at the
/// first `=` and decoded; a sequence without `=` has an empty value.
pub open spec fn parse_pair(seq: Seq<u8>) -> (Seq<u8>, Seq<u8>) {
    match first_index(seq, EQ) {
        Some(i) => (decode_bytes(seq.take(i)), decode_bytes(seq.skip(i + 1))),
        None => (decode_bytes(seq), seq![]),
    }
}

/// The pairs of a body: the sequences between `&`s, empty ones skipped.
pub open spec fn parse_pairs(s: Seq<u8>) -> Seq<(Seq<u8>, Seq<u8>)>
    decreases s.len(),
{
    if s.len() == 0 {
        seq![]
    } else {
        let rest = split_first(s, AMP).1;
        let seq = split_first(s, AMP).0;
        proof {
            lemma_first_index_bounds(s, AMP);
        }
        if seq.len() == 0 {
            parse_pairs(rest)
        } else {
            seq![parse_pair(seq)] + parse_pairs(rest)
        }
    }
}

/// The body text of one pair as the encoder writes it: the encoded key, and
/// `=` and the encoded value when there is a value.
pub open spec fn encode_pair(key: Seq<u8>, value: Option<Seq<u8>>) -> Seq<u8> {
    match value {
        Some(v) => encode_bytes(key) + seq![EQ] + encode_bytes(v),
        None => encode_bytes(key),
    }
}

/// Where `first_index` points, and what stands before it.
pub proof fn lemma_first_index_bounds(s: Seq<u8>, b: u8)
    ensures
        first_index(s, b) matches Some(i) ==> 0 <= i < s.len() && s[i] == b && (forall|j: int|
            0 <= j < i ==> s[j] != b),
        first_index(s, b) is None ==> forall|j: int| 0 <= j < s.len() ==> s[j] != b,
    decreases s.len(),
{
    if s.len() > 0 && s[0] != b {
        lemma_first_index_bounds(s.skip(1), b);
        if let Some(i) = first_index(s.skip(1), b) {
            assert forall|j: int| 0 <= j < i + 1 implies s[j] != b by {
                if j > 0 {
                    assert(s[j] == s.skip(1)[j - 1]);
                }
            }
        } else {
            assert forall|j: int| 0 <= j < s.len() implies s[j] != b by {
                if j > 0 {
                    assert(s[j] == s.skip(1)[j - 1]);
                }
            }
        }
    }
}

/// `first_index` finds the first `b` wherever it stands.
pub proof fn lemma_first_index_at(s: Seq<u8>, b: u8, i: int)
    requires
        0 <= i < s.len(),
        s[i] == b,
        forall|j: int| 0 <= j < i ==> s[j] != b,
    ensures
        first_index(s, b) == Some(i),
    decreases s.len(),
{
    if i > 0 {
        assert forall|j: int| 0 <= j < i - 1 implies s.skip(1)[j] != b by {
            assert(s.skip(1)[j] == s[j + 1]);
        }
        lemma_first_index_at(s.skip(1), b, i - 1);
    }
}

/// Without any `b`, `first_index` finds nothing.
pub proof fn lemma_first_index_none(s: Seq<u8>, b: u8)
    requires
        forall|j: int| 0 <= j < s.len() ==> s[j] != b,
    ensures
        first_index(s, b) is None,
    decreases s.len(),
{
    if s.len() > 0 {
        assert forall|j: int| 0 <= j < s.len() - 1 implies s.skip(1)[j] != b by {
            assert(s.skip(1)[j] == s[j + 1]);
        }
        lemma_first_index_none(s.skip(1), b);
    }
}


/// Encoding distributes over concatenation.
pub proof fn lemma_encode_concat(a: Seq<u8>, b: Seq<u8>)
    ensures
        encode_bytes(a + b) == encode_bytes(a) + encode_bytes(b),
    decreases a.len(),
{
    if a.len() == 0 {
        assert(a + b =~= b);
    } else {
        lemma_encode_concat(a.skip(1), b);
        assert((a + b).skip(1) =~= a.skip(1) + b);
        assert(encode_bytes(a) + encode_bytes(b) =~= encode_byte(a[0]) + (encode_bytes(a.skip(1))
            + encode_bytes(b)));
    }
}

/// Encoding a string one byte longer writes that byte's encoding last.
pub proof fn lemma_encode_push(s: Seq<u8>, i: int)
    requires
        0 <= i < s.len(),
    ensures
        encode_bytes(s.take(i + 1)) == encode_bytes(s.take(i)) + encode_byte(s[i]),
{
    assert(s.take(i + 1) =~= s.take(i) + seq![s[i]]);
    lemma_encode_concat(s.take(i), seq![s[i]]);
    assert(seq![s[i]].skip(1) =~= Seq::<u8>::empty());
    assert(encode_bytes(Seq::<u8>::empty()) =~= Seq::<u8>::empty());
    assert(encode_bytes(seq![s[i]]) == encode_byte(s[i]) + encode_bytes(Seq::<u8>::empty()));
    assert(encode_bytes(seq![s[i]]) =~= encode_byte(s[i]));
}

proof fn lemma_hex_digit_value(n: u8)
    requires
        n < 16,
    ensures
        hex_value(hex_digit(n)) == Some(n),
{
}

/// Decoding the encoding of one byte in front of anything reads that byte back.
proof fn lemma_decode_encode_byte(b: u8, rest: Seq<u8>)
    ensures
        decode_bytes(encode_byte(b) + rest) == seq![b] + decode_bytes(rest),
{
    let s = encode_byte(b) + rest;
    if is_unreserved(b) {
        assert(!escape_at(s, 0));
        assert(s.skip(1) =~= rest);
    } else if b == SPACE {
        assert(escape_at(s, 0));
        assert(s.skip(1) =~= rest);
    } else {
        lemma_hex_digit_value(b / 16);
        lemma_hex_digit_value(b % 16);
        assert(escape_at(s, 0));
        assert(escape_byte(s, 0) == b);
        assert(s.skip(3) =~= rest);
    }
}

/// Law: decoding gives back exactly the bytes that were encoded.
pub proof fn lemma_decode_encode(s: Seq<u8>)
    ensures
        decode_bytes(encode_bytes(s)) == s,
    decreases s.len(),
{
    if s.len() > 0 {
        lemma_decode_encode(s.skip(1));
        lemma_decode_encode_byte(s[0], encode_bytes(s.skip(1)));
        assert(seq![s[0]] + s.skip(1) =~= s);
    }
}

/// Law: an encoded string holds only unreserved bytes, `+`, `%` and hex
/// digits; in particular no `&` and no `=`.
pub proof fn lemma_encode_alphabet(s: Seq<u8>)
    ensures
        forall|j: int|
            0 <= j < encode_bytes(s).len() ==> {
                let c = #[trigger] encode_bytes(s)[j];
                is_unreserved(c) || c == PLUS || c == PERCENT
            },
        forall|j: int|
            0 <= j < encode_bytes(s).len() ==> #[trigger] encode_bytes(s)[j] != AMP
                && encode_bytes(s)[j] != EQ,
    decreases s.len(),
{
    if s.len() > 0 {
        lemma_encode_alphabet(s.skip(1));
        let e = encode_bytes(s);
        let h = encode_byte(s[0]);
        let t = encode_bytes(s.skip(1));
        assert forall|j: int| 0 <= j < e.len() implies {
            let c = #[trigger] e[j];
            is_unreserved(c) || c == PLUS || c == PERCENT
        } by {
            if j >= h.len() {
                assert(e[j] == t[j - h.len()]);
            }
        }
    }
}

/// When no escape starts before `i`, decoding copies those bytes as they are.
pub proof fn lemma_decode_plain_prefix(s: Seq<u8>, i: int)
    requires
        0 <= i <= s.len(),
        forall|j: int| 0 <= j < i ==> !#[trigger] escape_at(s, j),
    ensures
        decode_bytes(s) == s.take(i) + decode_bytes(s.skip(i)),
    decreases i,
{
    if i == 0 {
        assert(s.skip(0) =~= s);
        assert(s.take(0) + s =~= s);
    } else {
        assert(!escape_at(s, 0));
        let t = s.skip(1);
        assert forall|j: int| 0 <= j < i - 1 implies !#[trigger] escape_at(t, j) by {
            assert(!escape_at(s, j + 1));
            assert(t[j] == s[j + 1]);
            if j + 2 < t.len() {
                assert(t[j + 1] == s[j + 2]);
                assert(t[j + 2] == s[j + 3]);
            }
        }
        lemma_decode_plain_prefix(t, i - 1);
        assert(t.skip(i - 1) =~= s.skip(i));
        assert(s.take(i) =~= seq![s[0]] + t.take(i - 1));
    }
}

/// A body split at an `&` yields the pairs of the part before it followed by
/// the pairs of the part after it.
pub proof fn lemma_parse_pairs_concat(x: Seq<u8>, y: Seq<u8>)
    ensures
        parse_pairs(x + seq![AMP] + y) == parse_pairs(x) + parse_pairs(y),
    decreases x.len(),
{
    let s = x + seq![AMP] + y;
    lemma_first_index_bounds(x, AMP);
    match first_index(x, AMP) {
        Some(i) => {
            lemma_first_index_at(s, AMP, i);
            let rest_x = x.skip(i + 1);
            assert(s.skip(i + 1) =~= rest_x + seq![AMP] + y);
            assert(s.take(i) =~= x.take(i));
            lemma_parse_pairs_concat(rest_x, y);
        },
        None => {
            assert(s[x.len() as int] == AMP);
            lemma_first_index_at(s, AMP, x.len() as int);
            assert(s.take(x.len() as int) =~= x);
            assert(s.skip(x.len() as int + 1) =~= y);
            if x.len() > 0 {
                assert(split_first(x, AMP).1 =~= Seq::<u8>::empty());
                assert(parse_pairs(Seq::<u8>::empty()) =~= Seq::<(Seq<u8>, Seq<u8>)>::empty());
                assert(parse_pairs(x) =~= seq![parse_pair(x)]);
            } else {
                assert(parse_pairs(x) =~= Seq::<(Seq<u8>, Seq<u8>)>::empty());
            }
        },
    }
}

/// Law: the text of one pair reads back as that pair, the value empty where
/// there was none; a key-only pair with an empty key is no pair at all.
pub proof fn lemma_parse_encoded_pair(key: Seq<u8>, value: Option<Seq<u8>>)
    ensures
        parse_pairs(encode_pair(key, value)) == (if key.len() == 0 && value is None {
            Seq::<(Seq<u8>, Seq<u8>)>::empty()
        } else {
            seq![(key, value.unwrap_or(Seq::<u8>::empty()))]
        }),
{
    let s = encode_pair(key, value);
    let ek = encode_bytes(key);
    lemma_encode_alphabet(key);
    lemma_decode_encode(key);
    match value {
        Some(v) => {
            let ev = encode_bytes(v);
            lemma_encode_alphabet(v);
            lemma_decode_encode(v);
            assert forall|j: int| 0 <= j < s.len() implies s[j] != AMP by {
                if j < ek.len() {
                    assert(s[j] == ek[j]);
                } else if j > ek.len() {
                    assert(s[j] == ev[j - ek.len() - 1]);
                }
            }
            lemma_first_index_none(s, AMP);
            assert(s[ek.len() as int] == EQ);
            assert forall|j: int| 0 <= j < ek.len() implies s[j] != EQ by {
                assert(s[j] == ek[j]);
            }
            lemma_first_index_at(s, EQ, ek.len() as int);
            assert(s.take(ek.len() as int) =~= ek);
            assert(s.skip(ek.len() as int + 1) =~= ev);
            assert(parse_pairs(Seq::<u8>::empty()) =~= Seq::<(Seq<u8>, Seq<u8>)>::empty());
            assert(parse_pairs(s) =~= seq![parse_pair(s)]);
        },
        None => {
            lemma_first_index_none(s, AMP);
            lemma_first_index_none(s, EQ);
            if key.len() == 0 {
                assert(ek =~= Seq::<u8>::empty());
            } else {
                assert(ek.len() > 0) by {
                    assert(encode_byte(key[0]).len() > 0);
                }
                assert(parse_pairs(Seq::<u8>::empty()) =~= Seq::<(Seq<u8>, Seq<u8>)>::empty());
                assert(parse_pairs(s) =~= seq![parse_pair(s)]);
            }
        },
    }
}

/// A body of pairs that all have values, as the encoder writes them: each
/// pair's text, joined by `&`.
pub open spec fn encode_pairs(ps: Seq<(Seq<u8>, Seq<u8>)>) -> Seq<u8>
    decreases ps.len(),
{
    if ps.len() == 0 {
        seq![]
    } else if ps.len() == 1 {
        encode_pair(ps[0].0, Some(ps[0].1))
    } else {
        encode_pairs(ps.drop_last()) + seq![AMP] + encode_pair(ps.last().0, Some(ps.last().1))
    }
}

/// Law: a body of written pairs reads back as exactly those pairs, in
/// order.
pub proof fn lemma_read_back_pairs(ps: Seq<(Seq<u8>, Seq<u8>)>)
    ensures
        parse_pairs(encode_pairs(ps)) == ps,
    decreases ps.len(),
{
    if ps.len() == 0 {
        assert(parse_pairs(Seq::<u8>::empty()) =~= ps);
    } else if ps.len() == 1 {
        lemma_parse_encoded_pair(ps[0].0, Some(ps[0].1));
        assert(seq![(ps[0].0, ps[0].1)] =~= ps);
    } else {
        lemma_read_back_pairs(ps.drop_last());
        lemma_parse_encoded_pair(ps.last().0, Some(ps.last().1));
        lemma_parse_pairs_concat(
            encode_pairs(ps.drop_last()),
            encode_pair(ps.last().0, Some(ps.last().1)),
        );
        assert(ps.drop_last() + seq![(ps.last().0, ps.last().1)] =~= ps);
    }
}

/// Law: a hex digit has its usual value: `0`-`9` count 0 to 9, `a`-`f` and
/// `A`-`F` count 10 to 15, and no other byte is a hex digit.
pub proof fn lemma_hex_value_digits(b: u8)
    ensures
        48 <= b <= 57 ==> hex_value(b) == Some((b - 48) as u8),
        97 <= b <= 102 ==> hex_value(b) == Some((b - 97 + 10) as u8),
        65 <= b <= 70 ==> hex_value(b) == Some((b - 65 + 10) as u8),
        !(48 <= b <= 57 || 97 <= b <= 102 || 65 <= b <= 70) ==> hex_value(b) is None,
{
}

/// Law: a byte that is neither `+` nor `%` is kept as it is by decoding,
/// whatever follows it.
pub proof fn lemma_decode_keeps_other_bytes(b: u8, rest: Seq<u8>)
    requires
        b != PLUS,
        b != PERCENT,
    ensures
        decode_bytes(seq![b] + rest) == seq![b] + decode_bytes(rest),
{
    let s = seq![b] + rest;
    assert(!escape_at(s, 0));
    assert(s.skip(1) =~= rest);
}

/// Law: `+` decodes to a space, whatever follows it.
pub proof fn lemma_decode_plus(rest: Seq<u8>)
    ensures
        decode_bytes(seq![PLUS] + rest) == seq![SPACE] + decode_bytes(rest),
{
    let s = seq![PLUS] + rest;
    assert(escape_at(s, 0));
    assert(s.skip(1) =~= rest);
}

/// Law: `%` and two hex digits of values `x` and `y` decode to the byte
/// `16 * x + y`, whatever follows them.
pub proof fn lemma_decode_percent(h: u8, l: u8, x: u8, y: u8, rest: Seq<u8>)
    requires
        hex_value(h) == Some(x),
        hex_value(l) == Some(y),
    ensures
        decode_bytes(seq![PERCENT, h, l] + rest) == seq![(16 * x + y) as u8] + decode_bytes(rest),
{
    let s = seq![PERCENT, h, l] + rest;
    assert(s[1] == h && s[2] == l);
    assert(escape_at(s, 0));
    assert(s.skip(3) =~= rest);
}

/// Law: a `%` that is not followed by two hex digits is kept as it is.
pub proof fn lemma_decode_lone_percent(rest: Seq<u8>)
    requires
        !(rest.len() >= 2 && hex_value(rest[0]) is Some && hex_value(rest[1]) is Some),
    ensures
        decode_bytes(seq![PERCENT] + rest) == seq![PERCENT] + decode_bytes(rest),
{
    let s = seq![PERCENT] + rest;
    if s.len() >= 3 {
        assert(s[1] == rest[0] && s[2] == rest[1]);
    }
    assert(!escape_at(s, 0));
    assert(s.skip(1) =~= rest);
}

/// Law: input is plain (nothing to decode, so it is kept as it is and can
/// stay borrowed) exactly when it holds no `+` and no `%` followed by two hex
/// digits, whatever its length.
pub proof fn lemma_plain_iff(s: Seq<u8>)
    ensures
        is_plain(s) <==> forall|i: int|
            0 <= i < s.len() ==> #[trigger] s[i] != PLUS && !(s[i] == PERCENT && i + 2 < s.len()
                && hex_value(s[i + 1]) is Some && hex_value(s[i + 2]) is Some),
        is_plain(s) ==> decode_bytes(s) == s,
{
    if is_plain(s) {
        assert forall|i: int| 0 <= i < s.len() implies #[trigger] s[i] != PLUS && !(s[i]
            == PERCENT && i + 2 < s.len() && hex_value(s[i + 1]) is Some && hex_value(s[i + 2]) is Some) by {
            assert(!escape_at(s, i));
        }
        lemma_decode_plain_prefix(s, s.len() as int);
        assert(s.take(s.len() as int) =~= s);
        assert(s.skip(s.len() as int) =~= Seq::<u8>::empty());
        assert(s + Seq::<u8>::empty() =~= s);
    }
    if !is_plain(s) {
        let i = choose|i: int| 0 <= i < s.len() && escape_at(s, i);
        assert(s[i] == PLUS || (s[i] == PERCENT && i + 2 < s.len() && hex_value(s[i + 1]) is Some
            && hex_value(s[i + 2]) is Some));
    }
}

/// Law: bytes without `+` and `%` are plain.
pub proof fn lemma_plain_without_plus_percent(s: Seq<u8>)
    requires
        forall|i: int| 0 <= i < s.len() ==> s[i] != PLUS && s[i] != PERCENT,
    ensures
        is_plain(s),
        decode_bytes(s) == s,
{
    lemma_plain_iff(s);
}

/// Law: the unreserved bytes are the ASCII letters and digits and `-`, `.`,
/// `_`, `~`; they are written as they are, a space as `+`.
pub proof fn lemma_encode_plain_bytes(b: u8)
    ensures
        is_unreserved(b) <==> ((48 <= b <= 57) || (65 <= b <= 90) || (97 <= b <= 122) || b == 45
            || b == 46 || b == 95 || b == 126),
        is_unreserved(b) ==> encode_byte(b) == seq![b],
        b == SPACE ==> encode_byte(b) == seq![PLUS],
{
}

/// Law: any other byte is written as `%` and two lower-case hex digits that
/// spell that very byte.
pub proof fn lemma_encode_escape(b: u8)
    requires
        !is_unreserved(b),
        b != SPACE,
    ensures
        encode_byte(b).len() == 3,
        encode_byte(b)[0] == PERCENT,
        (48 <= encode_byte(b)[1] <= 57 || 97 <= encode_byte(b)[1] <= 102),
        (48 <= encode_byte(b)[2] <= 57 || 97 <= encode_byte(b)[2] <= 102),
        16 * hex_value(encode_byte(b)[1]).unwrap() + hex_value(encode_byte(b)[2]).unwrap() == b,
{
}

/// Law: a string is written byte by byte: one byte alone is written as that
/// byte's encoding, and the encoding of a concatenation is the concatenation
/// of the encodings.
pub proof fn lemma_encode_bytewise(b: u8, x: Seq<u8>, y: Seq<u8>)
    ensures
        encode_bytes(seq![b]) == encode_byte(b),
        encode_bytes(x + y) == encode_bytes(x) + encode_bytes(y),
{
    let s = seq![b];
    assert(s.skip(1) =~= Seq::<u8>::empty());
    assert(encode_bytes(Seq::<u8>::empty()) =~= Seq::<u8>::empty());
    assert(encode_bytes(s) == encode_byte(b) + encode_bytes(Seq::<u8>::empty()));
    assert(encode_byte(b) + Seq::<u8>::empty() =~= encode_byte(b));
    lemma_encode_concat(x, y);
}

/// Law: a sequence is split at its first `=`: the key is everything before
/// it and the value everything after it, further `=`s included.
pub proof fn lemma_pair_split_first_eq(k: Seq<u8>, v: Seq<u8>)
    requires
        forall|j: int| 0 <= j < k.len() ==> k[j] != EQ,
    ensures
        parse_pair(k + seq![EQ] + v) == (decode_bytes(k), decode_bytes(v)),
{
    let s = k + seq![EQ] + v;
    assert(s[k.len() as int] == EQ);
    assert forall|j: int| 0 <= j < k.len() implies s[j] != EQ by {
        assert(s[j] == k[j]);
    }
    lemma_first_index_at(s, EQ, k.len() as int);
    assert(s.take(k.len() as int) =~= k);
    assert(s.skip(k.len() as int + 1) =~= v);
}

/// Law: a sequence without `=` is a key with an empty value.
pub proof fn lemma_pair_without_eq(k: Seq<u8>)
    requires
        forall|j: int| 0 <= j < k.len() ==> k[j] != EQ,
    ensures
        parse_pair(k) == (decode_bytes(k), Seq::<u8>::empty()),
{
    lemma_first_index_none(k, EQ);
}

/// Law: a non-empty body without `&` is a single pair, split at its first
/// `=`.
pub proof fn lemma_single_pair_body(k: Seq<u8>, v: Seq<u8>)
    requires
        forall|j: int| 0 <= j < k.len() ==> k[j] != EQ && k[j] != AMP,
        forall|j: int| 0 <= j < v.len() ==> v[j] != AMP,
    ensures
        parse_pairs(k + seq![EQ] + v) == seq![(decode_bytes(k), decode_bytes(v))],
{
    let s = k + seq![EQ] + v;
    assert forall|j: int| 0 <= j < s.len() implies s[j] != AMP by {
        if j < k.len() {
            assert(s[j] == k[j]);
        } else if j > k.len() {
            assert(s[j] == v[j - k.len() - 1]);
        }
    }
    lemma_first_index_none(s, AMP);
    lemma_pair_split_first_eq(k, v);
    assert(parse_pairs(Seq::<u8>::empty()) =~= Seq::<(Seq<u8>, Seq<u8>)>::empty());
    assert(parse_pairs(s) =~= seq![parse_pair(s)]);
}

} // verus!
