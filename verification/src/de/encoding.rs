//! Reading a form body: splitting it into pairs and percent-decoding keys and
//! values.

use std::borrow::Cow;
use vstd::prelude::*;
use vstd::slice::slice_subrange;
use vstd::string::StringSliceAdditionalSpecFns;
use vstd::utf8::valid_utf8;
use std::str::Utf8Error;
use super::error::Error;
use crate::format::{
    AMP, EQ, PERCENT, PLUS, SPACE, decode_bytes, escape_at, escape_byte, escape_len, first_index,
    hex_value, is_plain, lemma_decode_plain_prefix, parse_pair, parse_pairs, split_first,
    lemma_first_index_bounds,
};

verus! {

/// A decoded key or value: borrowed from the input when nothing had to be
/// decoded, owned otherwise.
pub struct Part<'a>(Cow<'a, [u8]>);

impl<'a> View for Part<'a> {
    type V = Seq<u8>;

    closed spec fn view(&self) -> Seq<u8> {
        self.0@
    }
}

impl<'a> Part<'a> {
    /// The part still borrows its bytes from the input.
    pub closed spec fn is_borrowed(&self) -> bool {
        self.0 matches Cow::Borrowed(_)
    }

    /// The empty part.
    pub fn empty() -> (r: Self)
        ensures
            r@ == Seq::<u8>::empty(),
            r.is_borrowed(),
    {
        let e: &[u8] = &[];
        Part(Cow::Borrowed(e))
    }

    /// Percent-decodes `bytes`: `+` becomes a space and `%` followed by two
    /// hex digits becomes the byte they spell; everything else, a `%` without
    /// two hex digits included, is kept. The bytes are borrowed when nothing
    /// needed decoding.
    pub fn decode(bytes: &'a [u8]) -> (r: Self)
        ensures
            r@ == decode_bytes(bytes@),
            r.is_borrowed() <==> is_plain(bytes@),
            r.is_borrowed() ==> r@ == bytes@,
    {
        match find_replacement(bytes) {
            None => Part(Cow::Borrowed(bytes)),
            Some((head, ch, first_rest)) => {
                let mut result: Vec<u8> = Vec::new();
                extend_bytes(&mut result, head);
                result.push(ch);
                let mut rest = first_rest;
                loop
                    invariant
                        result@ + decode_bytes(rest@) == decode_bytes(bytes@),
                    ensures
                        result@ + rest@ == decode_bytes(bytes@),
                    decreases rest@.len(),
                {
                    match find_replacement(rest) {
                        Some((head, ch, tail)) => {
                            let ghost before = result@;
                            extend_bytes(&mut result, head);
                            result.push(ch);
                            assert(result@ + decode_bytes(tail@) =~= before + (head@ + seq![ch]
                                + decode_bytes(tail@)));
                            rest = tail;
                        },
                        None => {
                            break ;
                        },
                    }
                }
                extend_bytes(&mut result, rest);
                Part(Cow::Owned(result))
            },
        }
    }

    /// The decoded bytes.
    pub fn value(&self) -> (r: &Cow<'a, [u8]>)
        ensures
            r@ == self@,
            (*r matches Cow::Borrowed(_)) <==> self.is_borrowed(),
    {
        &self.0
    }

    /// The decoded bytes as text; refused with `Utf8` unless they are valid
    /// UTF-8.
    pub fn as_str(&self) -> (r: Result<&str, Error>)
        ensures
            r is Ok <==> valid_utf8(self@),
            r matches Ok(s) ==> s.spec_bytes() == self@,
            r matches Err(e) ==> e is Utf8,
    {
        let bytes: &[u8] = match &self.0 {
            Cow::Borrowed(b) => b,
            Cow::Owned(v) => v.as_slice(),
        };
        match str_from_utf8(bytes) {
            Ok(s) => Ok(s),
            Err(e) => Err(Error::Utf8(e)),
        }
    }

    /// The decoded bytes, taking the part apart.
    pub fn inner(self) -> (r: Cow<'a, [u8]>)
        ensures
            r@ == self@,
            (r matches Cow::Borrowed(_)) <==> self.is_borrowed(),
    {
        self.0
    }
}

/// `std::str::from_utf8`: the bytes as text when they are valid UTF-8;
/// otherwise the error that says where they are not.
#[verifier::external_body]
fn str_from_utf8(bytes: &[u8]) -> (r: Result<&str, Utf8Error>)
    ensures
        r is Ok <==> valid_utf8(bytes@),
        r matches Ok(s) ==> s.spec_bytes() == bytes@,
{
    std::str::from_utf8(bytes)
}

fn extend_bytes(v: &mut Vec<u8>, s: &[u8])
    ensures
        final(v)@ == old(v)@ + s@,
{
    let ghost start = v@;
    let mut i: usize = 0;
    while i < s.len()
        invariant
            i <= s@.len(),
            v@ == start + s@.take(i as int),
        decreases s@.len() - i,
    {
        v.push(s[i]);
        assert(s@.take(i + 1) =~= s@.take(i as int).push(s@[i as int]));
        i = i + 1;
    }
    assert(s@.take(i as int) =~= s@);
}

fn from_hex(b: u8) -> (r: Option<u8>)
    ensures
        r == hex_value(b),
{
    if 48 <= b && b <= 57 {
        Some(b - 48)
    } else if 97 <= b && b <= 102 {
        Some(b - 87)
    } else if 65 <= b && b <= 70 {
        Some(b - 55)
    } else {
        None
    }
}

/// Finds the first escape in `bytes`. Gives the unchanged bytes before it,
/// the byte it stands for and the bytes after it.
fn find_replacement(bytes: &[u8]) -> (r: Option<(&[u8], u8, &[u8])>)
    ensures
        r is None ==> is_plain(bytes@) && decode_bytes(bytes@) == bytes@,
        r matches Some((head, ch, rest)) ==> {
            &&& !is_plain(bytes@)
            &&& decode_bytes(bytes@) == head@ + seq![ch] + decode_bytes(rest@)
            &&& rest@.len() < bytes@.len()
        },
{
    let len = bytes.len();
    let mut idx: usize = 0;
    while idx < len
        invariant
            len == bytes@.len(),
            idx <= len,
            forall|j: int| 0 <= j < idx ==> !#[trigger] escape_at(bytes@, j),
        decreases len - idx,
    {
        let b = bytes[idx];
        let mut found: Option<u8> = None;
        if b == PLUS {
            found = Some(SPACE);
        } else if b == PERCENT && len - idx > 2 {
            let hi = from_hex(bytes[idx + 1]);
            let lo = from_hex(bytes[idx + 2]);
            match (hi, lo) {
                (Some(hi), Some(lo)) => {
                    found = Some(16 * hi + lo);
                },
                _ => {},
            }
        }
        match found {
            Some(ch) => {
                let skip: usize = if b == PLUS {
                    1
                } else {
                    3
                };
                let head = slice_subrange(bytes, 0, idx);
                let rest = slice_subrange(bytes, idx + skip, len);
                proof {
                    let s = bytes@;
                    let i = idx as int;
                    assert(escape_at(s, i));
                    assert(ch == escape_byte(s, i));
                    assert(skip == escape_len(s, i));
                    lemma_decode_plain_prefix(s, i);
                    let t = s.skip(i);
                    assert(escape_at(t, 0)) by {
                        assert(t[0] == s[i]);
                        if t[0] != PLUS {
                            assert(t[1] == s[i + 1]);
                            assert(t[2] == s[i + 2]);
                        }
                    }
                    assert(escape_byte(t, 0) == ch) by {
                        if t[0] != PLUS {
                            assert(t[1] == s[i + 1]);
                            assert(t[2] == s[i + 2]);
                        }
                    }
                    assert(escape_len(t, 0) == skip);
                    assert(t.skip(skip as int) =~= rest@);
                    assert(head@ =~= s.take(i));
                }
                return Some((head, ch, rest));
            },
            None => {
                assert(!escape_at(bytes@, idx as int));
            },
        }
        idx = idx + 1;
    }
    proof {
        lemma_decode_plain_prefix(bytes@, len as int);
        assert(bytes@.take(len as int) =~= bytes@);
        assert(bytes@.skip(len as int) =~= Seq::<u8>::empty());
        assert(bytes@ + Seq::<u8>::empty() =~= bytes@);
    }
    None
}

/// The position of the first `b` in `s`.
fn position_of(s: &[u8], b: u8) -> (r: Option<usize>)
    ensures
        r matches Some(i) ==> first_index(s@, b) == Some(i as int),
        r is None ==> first_index(s@, b) is None,
{
    let mut i: usize = 0;
    while i < s.len()
        invariant
            i <= s@.len(),
            forall|j: int| 0 <= j < i ==> s@[j] != b,
        decreases s@.len() - i,
    {
        if s[i] == b {
            proof {
                crate::format::lemma_first_index_at(s@, b, i as int);
            }
            return Some(i);
        }
        i = i + 1;
    }
    proof {
        crate::format::lemma_first_index_none(s@, b);
    }
    None
}

/// An iterator over the key-value pairs of a form body.
pub struct PairIter<'a>(pub &'a [u8]);

impl<'a> PairIter<'a> {
    /// The pairs still to come.
    pub open spec fn remaining(&self) -> Seq<(Seq<u8>, Seq<u8>)> {
        parse_pairs(self.0@)
    }

    /// Takes the bytes up to the next `&` (or the end) and moves past them.
    fn read_sequence(&mut self) -> (r: Option<&'a [u8]>)
        ensures
            old(self).0@.len() == 0 ==> r is None && final(self).0@ == old(self).0@,
            old(self).0@.len() > 0 ==> (r matches Some(seq) && seq@ == split_first(
                old(self).0@,
                AMP,
            ).0 && final(self).0@ == split_first(old(self).0@, AMP).1),
    {
        if self.0.len() == 0 {
            return None;
        }
        let s = self.0;
        match position_of(s, AMP) {
            Some(i) => {
                proof {
                    lemma_first_index_bounds(s@, AMP);
                }
                let seq = slice_subrange(s, 0, i);
                self.0 = slice_subrange(s, i + 1, s.len());
                Some(seq)
            },
            None => {
                let e: &[u8] = &[];
                self.0 = e;
                Some(s)
            },
        }
    }

    /// The next pair, keys and values decoded; empty sequences between `&`s
    /// are skipped, and a sequence without `=` gives an empty value.
    pub fn next(&mut self) -> (r: Option<(Part<'a>, Part<'a>)>)
        ensures
            old(self).remaining().len() == 0 ==> r is None,
            r is None ==> final(self).remaining() == old(self).remaining(),
            old(self).remaining().len() > 0 ==> (r matches Some((k, v)) && (k@, v@) == old(
                self,
            ).remaining()[0] && final(self).remaining() == old(self).remaining().skip(1)),
    {
        let ghost orig = self.0@;
        loop
            invariant
                parse_pairs(self.0@) == parse_pairs(orig),
                orig == old(self).0@,
            decreases self.0@.len(),
        {
            let ghost before = self.0@;
            match self.read_sequence() {
                None => {
                    return None;
                },
                Some(seq) => {
                    proof {
                        lemma_first_index_bounds(before, AMP);
                    }
                    if seq.len() != 0 {
                        let pair = match position_of(seq, EQ) {
                            Some(i) => {
                                proof {
                                    lemma_first_index_bounds(seq@, EQ);
                                }
                                let key = Part::decode(slice_subrange(seq, 0, i));
                                let value = Part::decode(slice_subrange(seq, i + 1, seq.len()));
                                (key, value)
                            },
                            None => (Part::decode(seq), Part::empty()),
                        };
                        assert(parse_pairs(before) == seq![parse_pair(seq@)] + parse_pairs(
                            self.0@,
                        ));
                        assert((pair.0@, pair.1@) == parse_pair(seq@));
                        assert(parse_pairs(self.0@) =~= parse_pairs(orig).skip(1));
                        return Some(pair);
                    }
                },
            }
        }
    }
}

impl<'a> PairIter<'a> {
    /// All remaining pairs, in order.
    pub fn collect_pairs(self) -> (r: Vec<(Part<'a>, Part<'a>)>)
        ensures
            r@.len() == self.remaining().len(),
            forall|i: int|
                0 <= i < r@.len() ==> (#[trigger] r@[i].0@, r@[i].1@) == self.remaining()[i],
    {
        let mut iter = self;
        let mut out: Vec<(Part<'a>, Part<'a>)> = Vec::new();
        loop
            invariant
                out@.len() + iter.remaining().len() == self.remaining().len(),
                forall|i: int|
                    0 <= i < out@.len() ==> (#[trigger] out@[i].0@, out@[i].1@)
                        == self.remaining()[i],
                forall|i: int|
                    0 <= i < iter.remaining().len() ==> #[trigger] iter.remaining()[i]
                        == self.remaining()[out@.len() + i],
            decreases iter.remaining().len(),
        {
            let ghost before = iter.remaining();
            match iter.next() {
                Some(pair) => {
                    out.push(pair);
                    assert forall|i: int| 0 <= i < iter.remaining().len() implies #[trigger] iter.remaining()[i]
                        == self.remaining()[out@.len() + i] by {
                        assert(iter.remaining()[i] == before[i + 1]);
                    }
                },
                None => {
                    return out;
                },
            }
        }
    }
}

} // verus!
