//! The encoder: it writes keys and values into a text target, percent-encoded
//! and joined by `=` and `&`, and checks that keys and values alternate.

use vstd::prelude::*;
use vstd::utf8::{
    encode_scalar, encode_utf8, is_char_boundary, is_continuation_byte, valid_utf8,
    leading_byte_width_1, leading_byte_width_2, leading_byte_width_3, leading_byte_width_4,
    has_width_1_encoding, has_width_2_encoding, has_width_3_encoding, has_width_4_encoding,
};
use crate::format::{
    AMP, EQ, PERCENT, PLUS, SPACE, encode_byte, encode_bytes, encode_pair, is_unreserved,
    parse_pairs, lemma_encode_push, lemma_parse_pairs_concat, lemma_parse_encoded_pair,
};
use super::error::Error;

verus! {

broadcast use vstd::utf8::group_utf8_lib;

/// The UTF-8 encoding of one char.
pub open spec fn char_utf8(ch: char) -> Seq<u8> {
    encode_utf8(seq![ch])
}

/// Something that text can be appended to and cut back to an earlier length.
pub trait Target: Sized {
    /// The text so far, as UTF-8 bytes.
    spec fn bytes(&self) -> Seq<u8>;

    /// The text may be cut back to `index` bytes.
    spec fn is_boundary(&self, index: int) -> bool;

    /// Appends a char.
    fn push(&mut self, ch: char)
        ensures
            final(self).bytes() == old(self).bytes() + char_utf8(ch),
            forall|i: int| old(self).is_boundary(i) ==> #[trigger] final(self).is_boundary(i),
            final(self).is_boundary(final(self).bytes().len() as int),
    ;

    /// The length so far, in bytes.
    fn index(&self) -> (r: usize)
        ensures
            r == self.bytes().len(),
            self.is_boundary(r as int),
    ;

    /// Cuts the text back to `index` bytes.
    fn revert(&mut self, index: usize)
        requires
            index <= old(self).bytes().len(),
            old(self).is_boundary(index as int),
        ensures
            final(self).bytes() == old(self).bytes().take(index as int),
            forall|i: int|
                0 <= i <= index && old(self).is_boundary(i) ==> #[trigger] final(self).is_boundary(
                    i,
                ),
    ;
}

/// `String::push`: appends `ch` to the string.
#[verifier::external_body]
fn string_push(s: &mut String, ch: char)
    ensures
        final(s)@ == old(s)@.push(ch),
{
    s.push(ch)
}

/// `String::len`: the length of the string in bytes.
#[verifier::external_body]
fn string_len(s: &String) -> (r: usize)
    ensures
        r == encode_utf8(s@).len(),
{
    s.len()
}

/// `String::truncate`: cuts the string to its first `new_len` bytes; the
/// cut must fall on a char boundary (the call panics otherwise).
#[verifier::external_body]
fn string_truncate(s: &mut String, new_len: usize)
    requires
        new_len <= encode_utf8(old(s)@).len(),
        is_char_boundary(encode_utf8(old(s)@), new_len as int),
    ensures
        encode_utf8(final(s)@) == encode_utf8(old(s)@).take(new_len as int),
{
    s.truncate(new_len)
}

proof fn lemma_encode_utf8_concat(a: Seq<char>, b: Seq<char>)
    ensures
        encode_utf8(a + b) == encode_utf8(a) + encode_utf8(b),
    decreases a.len(),
{
    if a.len() == 0 {
        assert(a + b =~= b);
    } else {
        lemma_encode_utf8_concat(a.drop_first(), b);
        assert((a + b).drop_first() =~= a.drop_first() + b);
        assert((a + b)[0] == a[0]);
    }
}

proof fn lemma_char_utf8(ch: char)
    ensures
        char_utf8(ch) == encode_scalar(ch as u32),
{
    let s = seq![ch];
    assert(s.drop_first() =~= Seq::<char>::empty());
    assert(encode_utf8(Seq::<char>::empty()) =~= Seq::<u8>::empty());
    assert(encode_utf8(s) == encode_scalar(s[0] as u32) + encode_utf8(s.drop_first()));
    assert(encode_scalar(ch as u32) + Seq::<u8>::empty() =~= encode_scalar(ch as u32));
}

proof fn lemma_ascii_utf8(b: u8)
    requires
        b < 128,
    ensures
        char_utf8(b as char) == seq![b],
{
    lemma_char_utf8(b as char);
    let c = (b as char) as u32;
    assert(c == b);
    assert((c & 0x7F) as u8 == b) by (bit_vector)
        requires
            c == b as u32,
            b < 128,
    ;
}

/// The first byte of a char's encoding is never a continuation byte.
proof fn lemma_scalar_leading_byte(ch: char)
    ensures
        char_utf8(ch).len() > 0,
        !is_continuation_byte(char_utf8(ch)[0]),
{
    lemma_char_utf8(ch);
    let c = ch as u32;
    if has_width_1_encoding(c) {
        assert(!is_continuation_byte(leading_byte_width_1(c))) by (bit_vector)
            requires
                c <= 0x7F,
        ;
    } else if has_width_2_encoding(c) {
        assert(!is_continuation_byte(leading_byte_width_2(c))) by (bit_vector);
    } else if has_width_3_encoding(c) {
        assert(!is_continuation_byte(leading_byte_width_3(c))) by (bit_vector);
    } else {
        assert(!is_continuation_byte(leading_byte_width_4(c))) by (bit_vector);
    }
}

/// Appending a char keeps every char boundary of the text.
proof fn lemma_boundary_push(a: Seq<char>, ch: char, i: int)
    requires
        is_char_boundary(encode_utf8(a), i),
    ensures
        is_char_boundary(encode_utf8(a.push(ch)), i),
{
    let s = encode_utf8(a);
    let t = encode_utf8(a.push(ch));
    lemma_encode_utf8_concat(a, seq![ch]);
    assert(a.push(ch) =~= a + seq![ch]);
    assert(valid_utf8(s));
    assert(valid_utf8(t));
    if i == 0 {
        vstd::utf8::is_char_boundary_start_end_of_seq(t);
    } else if i == s.len() {
        lemma_scalar_leading_byte(ch);
        assert(t[i] == char_utf8(ch)[0]);
        vstd::utf8::is_char_boundary_iff_not_is_continuation_byte(t, i);
    } else {
        if !(0 < i < s.len()) {
            reveal_with_fuel(is_char_boundary, 1);
            assert(false);
        }
        vstd::utf8::is_char_boundary_iff_not_is_continuation_byte(s, i);
        assert(t[i] == s[i]);
        vstd::utf8::is_char_boundary_iff_not_is_continuation_byte(t, i);
    }
}

/// Cutting the text at a char boundary keeps the char boundaries before it.
proof fn lemma_boundary_take(t: Seq<u8>, n: int, i: int)
    requires
        valid_utf8(t),
        0 <= i <= n <= t.len(),
        is_char_boundary(t, n),
        is_char_boundary(t, i),
    ensures
        valid_utf8(t.take(n)),
        is_char_boundary(t.take(n), i),
{
    vstd::utf8::valid_utf8_split(t, n);
    assert(t.subrange(0, n) =~= t.take(n));
    let u = t.take(n);
    if i == n {
        vstd::utf8::is_char_boundary_start_end_of_seq(u);
    } else if i == 0 {
        vstd::utf8::is_char_boundary_start_end_of_seq(u);
    } else {
        vstd::utf8::is_char_boundary_iff_not_is_continuation_byte(t, i);
        vstd::utf8::is_char_boundary_iff_not_is_continuation_byte(u, i);
    }
}

impl Target for String {
    open spec fn bytes(&self) -> Seq<u8> {
        encode_utf8(self@)
    }

    open spec fn is_boundary(&self, index: int) -> bool {
        is_char_boundary(encode_utf8(self@), index)
    }

    fn push(&mut self, ch: char) {
        let ghost before = self@;
        string_push(self, ch);
        proof {
            lemma_encode_utf8_concat(before, seq![ch]);
            assert(before.push(ch) =~= before + seq![ch]);
            assert forall|i: int| is_char_boundary(encode_utf8(before), i) implies #[trigger] is_char_boundary(
                encode_utf8(self@),
                i,
            ) by {
                lemma_boundary_push(before, ch, i);
            }
            vstd::utf8::is_char_boundary_start_end_of_seq(encode_utf8(self@));
        }
    }

    fn index(&self) -> (r: usize) {
        let r = string_len(self);
        proof {
            vstd::utf8::is_char_boundary_start_end_of_seq(encode_utf8(self@));
        }
        r
    }

    fn revert(&mut self, index: usize) {
        let ghost before = encode_utf8(self@);
        string_truncate(self, index);
        proof {
            assert forall|i: int|
                0 <= i <= index && is_char_boundary(before, i) implies #[trigger] is_char_boundary(
                encode_utf8(self@),
                i,
            ) by {
                if 0 <= i <= before.len() {
                    lemma_boundary_take(before, index as int, i);
                } else {
                    reveal_with_fuel(is_char_boundary, 1);
                }
            }
        }
    }
}

/// The UTF-8 encoding of `ch`.
pub fn utf8_bytes(ch: char) -> (r: Vec<u8>)
    ensures
        r@ == char_utf8(ch),
{
    let mut v: Vec<u8> = Vec::new();
    push_utf8(&mut v, ch);
    assert(Seq::<u8>::empty() + char_utf8(ch) =~= char_utf8(ch));
    v
}

/// Appends the UTF-8 encoding of `ch`.
fn push_utf8(v: &mut Vec<u8>, ch: char)
    ensures
        final(v)@ == old(v)@ + char_utf8(ch),
{
    let ghost before = v@;
    let c = ch as u32;
    proof {
        lemma_char_utf8(ch);
        vstd::utf8::char_is_scalar(ch);
    }
    if c <= 0x7F {
        v.push((c & 0x7F) as u8);
    } else if c <= 0x7FF {
        v.push(0xC0 | ((c >> 6) & 0x1F) as u8);
        v.push(0x80 | (c & 0x3F) as u8);
    } else if c <= 0xFFFF {
        v.push(0xE0 | ((c >> 12) & 0x0F) as u8);
        v.push(0x80 | ((c >> 6) & 0x3F) as u8);
        v.push(0x80 | (c & 0x3F) as u8);
    } else {
        v.push(0xF0 | ((c >> 18) & 0x7) as u8);
        v.push(0x80 | ((c >> 12) & 0x3F) as u8);
        v.push(0x80 | ((c >> 6) & 0x3F) as u8);
        v.push(0x80 | (c & 0x3F) as u8);
    }
    assert(v@ =~= before + encode_scalar(c));
}

impl Target for Vec<u8> {
    open spec fn bytes(&self) -> Seq<u8> {
        self@
    }

    open spec fn is_boundary(&self, index: int) -> bool {
        0 <= index <= self@.len()
    }

    fn push(&mut self, ch: char) {
        push_utf8(self, ch);
    }

    fn index(&self) -> (r: usize) {
        self.len()
    }

    fn revert(&mut self, index: usize) {
        self.truncate(index);
    }
}


/// Appends an ASCII byte as a char.
fn push_ascii<T: Target>(target: &mut T, b: u8)
    requires
        b < 128,
    ensures
        final(target).bytes() == old(target).bytes().push(b),
        forall|i: int| old(target).is_boundary(i) ==> #[trigger] final(target).is_boundary(i),
        final(target).is_boundary(final(target).bytes().len() as int),
{
    proof {
        lemma_ascii_utf8(b);
    }
    target.push(b as char);
    assert(old(target).bytes() + seq![b] =~= old(target).bytes().push(b));
}

/// What the encoder expects next.
pub enum Expected {
    /// The first key of the body.
    FirstKey,
    /// A further key, to be preceded by `&`.
    Key,
    /// The value of the key that was written from the given index on; the
    /// flag tells whether that key was the first one, written without `&`.
    Value(usize, bool),
}

/// Writes a form body into a target, after whatever the target already
/// holds. Keys and values must alternate; every key gets a value, an empty
/// value, or is taken back.
pub struct Encoder<T: Target> {
    target: T,
    start_index: usize,
    expected: Expected,
    pairs: Ghost<Seq<(Seq<u8>, Seq<u8>)>>,
    pending: Ghost<Seq<u8>>,
    amp: Ghost<bool>,
    failed: Ghost<bool>,
    original: Ghost<Seq<u8>>,
}

/// The pairs that a reader finds in one written pair: the key with its
/// value, an empty value where there was none; nothing for a key-only pair
/// with an empty key.
pub open spec fn pair_read_back(key: Seq<u8>, value: Option<Seq<u8>>) -> Seq<(Seq<u8>, Seq<u8>)> {
    if key.len() == 0 && value is None {
        Seq::empty()
    } else {
        seq![(key, value.unwrap_or(Seq::<u8>::empty()))]
    }
}

impl<T: Target> Encoder<T> {
    /// Everything in the target: what it held before and what was written.
    pub closed spec fn bytes(&self) -> Seq<u8> {
        self.target.bytes()
    }

    /// Where the body starts in the target.
    pub closed spec fn start(&self) -> int {
        self.start_index as int
    }

    /// What is expected next.
    pub closed spec fn state(&self) -> Expected {
        self.expected
    }

    /// The pairs given so far, as a reader of the body finds them.
    pub closed spec fn pairs(&self) -> Seq<(Seq<u8>, Seq<u8>)> {
        self.pairs@
    }

    /// The key that was written last.
    pub closed spec fn pending_key(&self) -> Seq<u8> {
        self.pending@
    }

    /// What the target held before the encoder was made.
    pub closed spec fn original(&self) -> Seq<u8> {
        self.original@
    }

    /// A call was refused on this encoder.
    pub closed spec fn failed(&self) -> bool {
        self.failed@
    }

    /// The body written so far.
    pub open spec fn written(&self) -> Seq<u8> {
        self.bytes().skip(self.start())
    }

    /// The encoder is well formed.
    pub closed spec fn wf(&self) -> bool {
        &&& self.start_index <= self.target.bytes().len()
        &&& self.target.bytes().len() <= usize::MAX
        &&& self.target.is_boundary(self.start_index as int)
        &&& self.original@.len() == self.start_index
        &&& self.target.bytes().take(self.start_index as int) == self.original@
        &&& match self.expected {
            Expected::Value(i, first) => self.start_index <= i <= self.target.bytes().len()
                && self.target.is_boundary(i as int) && self.amp@ == !first,
            _ => true,
        }
        &&& !self.failed@ ==> self.consistent()
    }

    /// The body written so far reads back as the pairs given so far.
    closed spec fn consistent(&self) -> bool {
        let w = self.written();
        match self.expected {
            Expected::FirstKey => w == Seq::<u8>::empty() && self.pairs@ == Seq::<
                (Seq<u8>, Seq<u8>),
            >::empty(),
            Expected::Key => parse_pairs(w) == self.pairs@,
            Expected::Value(i, _) => {
                let base = w.take(i - self.start_index);
                &&& w == base + (if self.amp@ {
                    seq![AMP]
                } else {
                    Seq::<u8>::empty()
                }) + encode_bytes(self.pending@)
                &&& parse_pairs(base) == self.pairs@
                &&& !self.amp@ ==> i == self.start_index
            },
        }
    }

    /// The effect of `push_key`.
    pub open spec fn key_step(old: Self, new: Self, key: Seq<u8>, r: Result<(), Error>) -> bool {
        &&& new.start() == old.start()
        &&& new.original() == old.original()
        &&& new.state() == Expected::Value(old.bytes().len() as usize, old.state() is FirstKey)
        &&& new.pairs() == old.pairs()
        &&& match old.state() {
            Expected::FirstKey => r == Ok::<(), Error>(()) && new.bytes() == old.bytes()
                + encode_bytes(key) && new.failed() == old.failed() && new.pending_key() == key,
            Expected::Key => r == Ok::<(), Error>(()) && new.bytes() == old.bytes() + seq![AMP]
                + encode_bytes(key) && new.failed() == old.failed() && new.pending_key() == key,
            Expected::Value(_, _) => r == Err::<(), Error>(Error::ExpectedValue) && new.bytes()
                == old.bytes() && new.failed(),
        }
    }

    /// The effect of `push_value`.
    pub open spec fn value_step(old: Self, new: Self, value: Seq<u8>, r: Result<(), Error>) -> bool {
        &&& new.start() == old.start()
        &&& new.original() == old.original()
        &&& new.state() == Expected::Key
        &&& match old.state() {
            Expected::Value(_, _) => r == Ok::<(), Error>(()) && new.bytes() == old.bytes() + seq![EQ]
                + encode_bytes(value) && new.failed() == old.failed() && new.pairs()
                == old.pairs() + pair_read_back(old.pending_key(), Some(value)),
            _ => r == Err::<(), Error>(Error::ExpectedKey) && new.bytes() == old.bytes()
                && new.failed() && new.pairs() == old.pairs(),
        }
    }

    /// The effect of `push_none_value`.
    pub open spec fn none_step(old: Self, new: Self, r: Result<(), Error>) -> bool {
        &&& new.start() == old.start()
        &&& new.original() == old.original()
        &&& new.pairs() == old.pairs()
        &&& match old.state() {
            Expected::Value(i, first) => r == Ok::<(), Error>(()) && new.bytes() == old.bytes().take(
                i as int,
            ) && new.failed() == old.failed() && new.state() == (if first {
                Expected::FirstKey
            } else {
                Expected::Key
            }),
            _ => r == Err::<(), Error>(Error::ExpectedKey) && new.bytes() == old.bytes()
                && new.failed() && new.state() == Expected::Key,
        }
    }

    /// The effect of `push_empty_value`.
    pub open spec fn empty_step(old: Self, new: Self, r: Result<(), Error>) -> bool {
        &&& new.start() == old.start()
        &&& new.original() == old.original()
        &&& new.state() == Expected::Key
        &&& new.bytes() == old.bytes()
        &&& match old.state() {
            Expected::Value(_, _) => r == Ok::<(), Error>(()) && new.failed() == old.failed()
                && new.pairs() == old.pairs() + pair_read_back(old.pending_key(), None),
            _ => r == Err::<(), Error>(Error::ExpectedKey) && new.failed() && new.pairs()
                == old.pairs(),
        }
    }

    /// An encoder that writes after what `target` already holds.
    pub fn new(target: T) -> (r: Self)
        ensures
            r.wf(),
            r.bytes() == target.bytes(),
            r.start() == target.bytes().len(),
            r.original() == target.bytes(),
            r.state() == Expected::FirstKey,
            r.pairs() == Seq::<(Seq<u8>, Seq<u8>)>::empty(),
            !r.failed(),
    {
        let start_index = target.index();
        let r = Encoder {
            target,
            start_index,
            expected: Expected::FirstKey,
            pairs: Ghost(Seq::empty()),
            pending: Ghost(Seq::empty()),
            amp: Ghost(false),
            failed: Ghost(false),
            original: Ghost(target.bytes()),
        };
        assert(r.written() =~= Seq::<u8>::empty());
        assert(r.bytes().take(start_index as int) =~= r.bytes());
        r
    }

    /// Writes a key: `&` first unless it is the first key, then the encoded
    /// key. Refused with `ExpectedValue` while a value is due.
    pub fn push_key(&mut self, key: &[u8]) -> (r: Result<(), Error>)
        requires
            old(self).wf(),
        ensures
            final(self).wf(),
            Self::key_step(*old(self), *final(self), key@, r),
    {
        let index = self.target.index();
        let first = match self.expected {
            Expected::FirstKey => {
                self.amp = Ghost(false);
                true
            },
            Expected::Key => {
                push_ascii(&mut self.target, AMP);
                self.amp = Ghost(true);
                false
            },
            Expected::Value(_, _) => {
                self.expected = Expected::Value(index, false);
                self.amp = Ghost(true);
                self.failed = Ghost(true);
                return Err(Error::ExpectedValue);
            },
        };
        self.expected = Expected::Value(index, first);
        self.pending = Ghost(key@);
        let ghost before = self.target.bytes();
        self.append_encoded(key);
        proof {
            if self.amp@ {
                assert(before =~= old(self).bytes() + seq![AMP]);
            } else {
                assert(before =~= old(self).bytes());
            }
            assert(self.bytes() =~= before + encode_bytes(key@));
            assert(self.target.bytes().take(self.start_index as int) =~= old(self).bytes().take(
                self.start_index as int,
            ));
            let w = self.written();
            let base = w.take(index - self.start_index);
            assert(before.skip(self.start_index as int) == old(self).written() + (if self.amp@ {
                seq![AMP]
            } else {
                Seq::<u8>::empty()
            }));
            assert(base =~= old(self).written());
            assert(w =~= base + (if self.amp@ {
                seq![AMP]
            } else {
                Seq::<u8>::empty()
            }) + encode_bytes(key@));
        }
        Ok(())
    }

    /// Writes `=` and the encoded value. Refused with `ExpectedKey` unless a
    /// value is due.
    pub fn push_value(&mut self, value: &[u8]) -> (r: Result<(), Error>)
        requires
            old(self).wf(),
        ensures
            final(self).wf(),
            Self::value_step(*old(self), *final(self), value@, r),
    {
        match self.expected {
            Expected::FirstKey | Expected::Key => {
                self.expected = Expected::Key;
                self.failed = Ghost(true);
                return Err(Error::ExpectedKey);
            },
            Expected::Value(i, first) => {
                proof {
                    if !self.failed@ {
                        self.lemma_complete_pair(i, first, Some(value@));
                    }
                }
                self.expected = Expected::Key;
            },
        }
        push_ascii(&mut self.target, EQ);
        self.append_encoded(value);
        self.pairs = Ghost(self.pairs@ + pair_read_back(self.pending@, Some(value@)));
        proof {
            assert(self.bytes() =~= old(self).bytes() + seq![EQ] + encode_bytes(value@));
            assert(self.target.bytes().take(self.start_index as int) =~= old(self).bytes().take(
                self.start_index as int,
            ));
            let w = self.written();
            assert(w =~= old(self).written() + (seq![EQ] + encode_bytes(value@)));
        }
        Ok(())
    }

    /// Takes back the key that waits for its value: the body is cut back to
    /// what it was before the key (and its `&`), so the pair leaves no trace;
    /// when that key began the body, the next key is again the first one.
    /// Refused with `ExpectedKey` unless a value is due.
    pub fn push_none_value(&mut self) -> (r: Result<(), Error>)
        requires
            old(self).wf(),
        ensures
            final(self).wf(),
            Self::none_step(*old(self), *final(self), r),
    {
        match self.expected {
            Expected::FirstKey | Expected::Key => {
                self.expected = Expected::Key;
                self.failed = Ghost(true);
                Err(Error::ExpectedKey)
            },
            Expected::Value(index, first) => {
                self.target.revert(index);
                if first {
                    self.expected = Expected::FirstKey;
                } else {
                    self.expected = Expected::Key;
                }
                proof {
                    assert(self.written() =~= old(self).written().take(index - self.start_index));
                    assert(parse_pairs(Seq::<u8>::empty()) =~= Seq::<(Seq<u8>, Seq<u8>)>::empty());
                    if first && !self.failed@ {
                        assert(old(self).written().take(0) =~= Seq::<u8>::empty());
                        assert(self.written() =~= Seq::<u8>::empty());
                    }
                    assert(self.target.bytes().take(self.start_index as int) =~= old(
                        self,
                    ).bytes().take(self.start_index as int));
                }
                Ok(())
            },
        }
    }

    /// Ends the pair of the key that waits for its value without a value:
    /// nothing more is written. Refused with `ExpectedKey` unless a value is
    /// due.
    pub fn push_empty_value(&mut self) -> (r: Result<(), Error>)
        requires
            old(self).wf(),
        ensures
            final(self).wf(),
            Self::empty_step(*old(self), *final(self), r),
    {
        match self.expected {
            Expected::FirstKey | Expected::Key => {
                self.expected = Expected::Key;
                self.failed = Ghost(true);
                Err(Error::ExpectedKey)
            },
            Expected::Value(i, first) => {
                proof {
                    if !self.failed@ {
                        self.lemma_complete_pair(i, first, None);
                    }
                }
                self.expected = Expected::Key;
                self.pairs = Ghost(self.pairs@ + pair_read_back(self.pending@, None));
                Ok(())
            },
        }
    }

    /// Gives the target back once the body is complete. Refused with
    /// `ExpectedValue` while a value is due.
    ///
    /// Law: the body written reads back as the pairs that were given.
    pub fn finish(self) -> (r: Result<T, Error>)
        requires
            self.wf(),
        ensures
            self.state() is Value ==> r == Err::<T, Error>(Error::ExpectedValue),
            !(self.state() is Value) ==> (r matches Ok(t) && t.bytes() == self.bytes()),
            r matches Ok(t) ==> t.bytes() == self.original() + self.written(),
            !self.failed() ==> (r matches Ok(t) ==> parse_pairs(t.bytes().skip(self.start()))
                == self.pairs()),
    {
        match self.expected {
            Expected::FirstKey | Expected::Key => {
                proof {
                    if !self.failed@ && self.expected is FirstKey {
                        assert(parse_pairs(Seq::<u8>::empty()) =~= Seq::<
                            (Seq<u8>, Seq<u8>),
                        >::empty());
                    }
                }
                proof {
                    assert(self.target.bytes() =~= self.original@ + self.written());
                }
                Ok(self.target)
            },
            Expected::Value(_, _) => Err(Error::ExpectedValue),
        }
    }

    /// Gives the target back as it was before the body: everything written
    /// is taken back.
    pub fn cancel(self) -> (t: T)
        requires
            self.wf(),
        ensures
            t.bytes() == self.original(),
    {
        let mut target = self.target;
        target.revert(self.start_index);
        target
    }

    /// Law: whenever no value is due and no call was refused, the body
    /// written so far reads back as exactly the pairs that were given.
    pub proof fn lemma_written_reads_back(&self)
        requires
            self.wf(),
            !self.failed(),
            !(self.state() is Value),
        ensures
            parse_pairs(self.written()) == self.pairs(),
    {
        if self.expected is FirstKey {
            assert(parse_pairs(Seq::<u8>::empty()) =~= Seq::<(Seq<u8>, Seq<u8>)>::empty());
        }
    }

    /// The body read back after the pair of the pending key is completed.
    proof fn lemma_complete_pair(&self, i: usize, first: bool, value: Option<Seq<u8>>)
        requires
            self.wf(),
            !self.failed@,
            self.expected == Expected::Value(i, first),
        ensures
            parse_pairs(self.written() + match value {
                Some(v) => seq![EQ] + encode_bytes(v),
                None => Seq::<u8>::empty(),
            }) == self.pairs@ + pair_read_back(self.pending@, value),
    {
        let w = self.written();
        let base = w.take(i - self.start_index);
        let p = encode_pair(self.pending@, value);
        let tail = match value {
            Some(v) => seq![EQ] + encode_bytes(v),
            None => Seq::<u8>::empty(),
        };
        lemma_parse_encoded_pair(self.pending@, value);
        assert(encode_bytes(self.pending@) + tail =~= p);
        if self.amp@ {
            assert(w + tail =~= base + seq![AMP] + p);
            lemma_parse_pairs_concat(base, p);
        } else {
            assert(base =~= Seq::<u8>::empty());
            assert(parse_pairs(Seq::<u8>::empty()) =~= Seq::<(Seq<u8>, Seq<u8>)>::empty());
            assert(w + tail =~= p);
            assert(self.pairs@ + pair_read_back(self.pending@, value) =~= pair_read_back(
                self.pending@,
                value,
            ));
        }
    }

    /// Percent-encodes `value` into the target.
    fn append_encoded(&mut self, value: &[u8])
        requires
            old(self).target.is_boundary(old(self).target.bytes().len() as int),
        ensures
            final(self).target.bytes() == old(self).target.bytes() + encode_bytes(value@),
            forall|i: int|
                old(self).target.is_boundary(i) ==> #[trigger] final(self).target.is_boundary(i),
            final(self).target.is_boundary(final(self).target.bytes().len() as int),
            final(self).target.bytes().len() <= usize::MAX,
            final(self).start_index == old(self).start_index,
            final(self).expected == old(self).expected,
            final(self).pairs == old(self).pairs,
            final(self).pending == old(self).pending,
            final(self).amp == old(self).amp,
            final(self).failed == old(self).failed,
            final(self).original == old(self).original,
    {
        let ghost start = self.target.bytes();
        let mut i: usize = 0;
        proof {
            assert(value@.take(0) =~= Seq::<u8>::empty());
            assert(start + encode_bytes(Seq::<u8>::empty()) =~= start);
            let t = self.target;
            assert forall|j: int| old(self).target.is_boundary(j) implies #[trigger] t.is_boundary(j) by {}
        }
        let len = value.len();
        while i < len
            invariant
                len == value@.len(),
                i <= len,
                self.target.bytes() == start + encode_bytes(value@.take(i as int)),
                start == old(self).target.bytes(),
                forall|j: int|
                    old(self).target.is_boundary(j) ==> #[trigger] self.target.is_boundary(j),
                self.target.is_boundary(self.target.bytes().len() as int),
                self.start_index == old(self).start_index,
                self.expected == old(self).expected,
                self.pairs == old(self).pairs,
                self.pending == old(self).pending,
                self.amp == old(self).amp,
                self.failed == old(self).failed,
                self.original == old(self).original,
            decreases len - i,
        {
            let ghost before = self.target.bytes();
            let ch = value[i];
            if ch == 45 || ch == 46 || (48 <= ch && ch <= 57) || (65 <= ch && ch <= 90) || ch == 95
                || (97 <= ch && ch <= 122) || ch == 126 {
                push_ascii(&mut self.target, ch);
            } else if ch == SPACE {
                push_ascii(&mut self.target, PLUS);
            } else {
                let hi = ch / 16;
                let lo = ch % 16;
                let hi = if hi < 10 {
                    hi + 48
                } else {
                    hi + 87
                };
                let lo = if lo < 10 {
                    lo + 48
                } else {
                    lo + 87
                };
                push_ascii(&mut self.target, PERCENT);
                push_ascii(&mut self.target, hi);
                push_ascii(&mut self.target, lo);
            }
            proof {
                lemma_encode_push(value@, i as int);
                assert(self.target.bytes() =~= before + encode_byte(ch));
            }
            i = i + 1;
        }
        assert(value@.take(len as int) =~= value@);
        let _ = self.target.index();
    }
}

} // verus!
