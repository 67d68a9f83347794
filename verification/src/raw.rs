use crate::error::Error;
use vstd::prelude::*;
use vstd::slice::slice_subrange;
use vstd::slice::slice_to_vec;
use vstd::string::StrSliceExecFns;
use vstd::string::StringSliceAdditionalSpecFns;
use vstd::utf8::decode_utf8;
use vstd::utf8::encode_utf8;
use vstd::utf8::valid_utf8;

verus! {

/// Carriage return.
pub const CR: u8 = 13;

/// Line feed.
pub const LF: u8 = 10;

/// A borrowed run of arbitrary bytes that is treated like text.
#[derive(Clone, Copy, Debug)]
pub struct RawStr<'a> {
    bytes: &'a [u8],
}

/// An owned, growable run of arbitrary bytes that is treated like text.
#[derive(Debug)]
pub struct RawString {
    bytes: Vec<u8>,
}

impl<'a> View for RawStr<'a> {
    type V = Seq<u8>;

    closed spec fn view(&self) -> Seq<u8> {
        self.bytes@
    }
}

impl View for RawString {
    type V = Seq<u8>;

    closed spec fn view(&self) -> Seq<u8> {
        self.bytes@
    }
}

/// `i` is the first place in `s` that holds `b`.
pub open spec fn first_at(s: Seq<u8>, b: u8, i: int) -> bool {
    &&& 0 <= i < s.len()
    &&& s[i] == b
    &&& forall|j: int| 0 <= j < i ==> s[j] != b
}

/// The first place in `s` that holds `b`; meaningful where `s` contains `b`.
pub open spec fn position(s: Seq<u8>, b: u8) -> int {
    choose|i: int| first_at(s, b, i)
}

/// The first place that holds a byte is unique.
pub proof fn lemma_position(s: Seq<u8>, b: u8, i: int)
    requires
        first_at(s, b, i),
    ensures
        position(s, b) == i,
{
    let p = position(s, b);
    assert(first_at(s, b, p));
    if p < i {
        assert(s[p] == b);
    } else if i < p {
        assert(s[i] == b);
    }
}

/// A carriage return directly followed by a line feed stands at `i`.
pub open spec fn crlf_at(s: Seq<u8>, i: int) -> bool {
    0 <= i && i + 1 < s.len() && s[i] == CR && s[i + 1] == LF
}

/// The lines found from `i` on, where the line being read began at `start`.
pub open spec fn lines_from(s: Seq<u8>, start: int, i: int) -> Seq<Seq<u8>>
    decreases s.len() - i,
{
    if i < 0 || i + 1 >= s.len() {
        Seq::empty()
    } else if crlf_at(s, i) {
        seq![s.subrange(start, i)] + lines_from(s, i + 2, i + 2)
    } else {
        lines_from(s, start, i + 1)
    }
}

/// The lines of `s`: the runs of bytes that end at each carriage return
/// followed by a line feed, without those two bytes. Bytes after the last
/// such pair belong to no line.
pub open spec fn lines_of(s: Seq<u8>) -> Seq<Seq<u8>> {
    lines_from(s, 0, 0)
}

/// No carriage return in `s` is directly followed by a line feed.
pub open spec fn no_crlf(s: Seq<u8>) -> bool {
    forall|i: int| !crlf_at(s, i)
}

/// Bytes in front move the lines that are found behind them, and nothing
/// else.
pub proof fn lemma_lines_shift(p: Seq<u8>, rest: Seq<u8>, start: int, i: int)
    requires
        0 <= start <= i,
    ensures
        lines_from(p + rest, p.len() + start, p.len() + i) == lines_from(rest, start, i),
    decreases rest.len() - i,
{
    let s = p + rest;
    if i + 1 >= rest.len() {
    } else {
        assert(s[p.len() + i] == rest[i]);
        assert(s[p.len() + i + 1] == rest[i + 1]);
        if crlf_at(rest, i) {
            assert(crlf_at(s, p.len() + i));
            lemma_lines_shift(p, rest, i + 2, i + 2);
            assert(s.subrange(p.len() + start, p.len() + i) =~= rest.subrange(start, i));
        } else {
            assert(!crlf_at(s, p.len() + i));
            lemma_lines_shift(p, rest, start, i + 1);
        }
    }
}

/// While reading a first line that holds no line break, nothing is found
/// before the line's end.
proof fn lemma_lines_scan(line: Seq<u8>, rest: Seq<u8>, i: int)
    requires
        no_crlf(line),
        0 <= i <= line.len(),
    ensures
        lines_from(line + seq![CR, LF] + rest, 0, i) == seq![line] + lines_of(rest),
    decreases line.len() - i,
{
    let s = line + seq![CR, LF] + rest;
    let n = line.len() as int;
    assert(s[n] == CR);
    assert(s[n + 1] == LF);
    if i == n {
        assert(crlf_at(s, n));
        assert(s.subrange(0, n) =~= line);
        lemma_lines_shift(line + seq![CR, LF], rest, 0, 0);
    } else {
        if crlf_at(s, i) {
            if i + 1 < n {
                assert(s[i] == line[i]);
                assert(s[i + 1] == line[i + 1]);
                assert(crlf_at(line, i));
            } else {
                assert(s[i + 1] == CR);
            }
        }
        lemma_lines_scan(line, rest, i + 1);
    }
}

/// A run of bytes without a line break inside, followed by a carriage
/// return and a line feed, is the first line; the lines after it are those
/// of the rest.
pub proof fn law_lines_first(line: Seq<u8>, rest: Seq<u8>)
    requires
        no_crlf(line),
    ensures
        lines_of(line + seq![CR, LF] + rest) == seq![line] + lines_of(rest),
{
    lemma_lines_scan(line, rest, 0);
}

/// Bytes without a line break inside make no line.
pub proof fn law_lines_rest(s: Seq<u8>)
    requires
        no_crlf(s),
    ensures
        lines_of(s) == Seq::<Seq<u8>>::empty(),
{
    lemma_lines_none(s, 0, 0);
}

proof fn lemma_lines_none(s: Seq<u8>, start: int, i: int)
    requires
        no_crlf(s),
        0 <= i,
    ensures
        lines_from(s, start, i) == Seq::<Seq<u8>>::empty(),
    decreases s.len() - i,
{
    if i + 1 < s.len() {
        assert(!crlf_at(s, i));
        lemma_lines_none(s, start, i + 1);
    }
}

/// The byte sequences that a sequence of borrowed strings stands for.
pub open spec fn views(v: Seq<RawStr<'_>>) -> Seq<Seq<u8>> {
    Seq::new(v.len(), |i: int| v[i]@)
}

/// The text that `String::from_utf8_lossy` makes of the given bytes.
pub uninterp spec fn lossy_text(bytes: Seq<u8>) -> Seq<char>;

/// Calls `String::from_utf8`. It succeeds exactly on well-formed UTF-8, and
/// the string it gives then encodes to the bytes it was given.
#[verifier::external_body]
fn text_from_utf8(bytes: Vec<u8>) -> (r: Option<String>)
    ensures
        r.is_some() <==> valid_utf8(bytes@),
        r matches Some(s) ==> encode_utf8(s@) == bytes@,
{
    String::from_utf8(bytes).ok()
}

/// Calls `String::from_utf8_lossy`. The result is a function of the bytes
/// alone, and on well-formed UTF-8 it is the text that the bytes encode.
#[verifier::external_body]
fn text_from_utf8_lossy(bytes: &[u8]) -> (r: String)
    ensures
        r@ == lossy_text(bytes@),
        valid_utf8(bytes@) ==> r@ == decode_utf8(bytes@),
{
    String::from_utf8_lossy(bytes).into_owned()
}

impl<'a> RawStr<'a> {
    /// Views the given bytes as a string, without copying.
    pub fn new(data: &'a [u8]) -> (r: RawStr<'a>)
        ensures
            r@ == data@,
    {
        RawStr { bytes: data }
    }

    /// Views the UTF-8 encoding of a piece of text, without copying.
    pub fn of_str(text: &'a str) -> (r: RawStr<'a>)
        ensures
            r@ == text.spec_bytes(),
    {
        RawStr { bytes: text.as_bytes() }
    }

    /// The bytes themselves.
    pub fn as_bytes(&self) -> (r: &'a [u8])
        ensures
            r@ == self@,
    {
        self.bytes
    }

    /// The number of bytes.
    pub fn len(&self) -> (n: usize)
        ensures
            n == self@.len(),
    {
        self.bytes.len()
    }

    /// Whether there is no byte at all.
    pub fn is_empty(&self) -> (r: bool)
        ensures
            r == (self@.len() == 0),
    {
        self.bytes.len() == 0
    }

    /// The byte at place `i`.
    pub fn byte_at(&self, i: usize) -> (b: u8)
        requires
            i < self@.len(),
        ensures
            b == self@[i as int],
    {
        self.bytes[i]
    }

    /// The part from place `from` up to, not including, place `to`. Nothing
    /// is copied.
    pub fn slice(&self, from: usize, to: usize) -> (r: RawStr<'a>)
        requires
            from <= to <= self@.len(),
        ensures
            r@ == self@.subrange(from as int, to as int),
    {
        RawStr { bytes: slice_subrange(self.bytes, from, to) }
    }

    /// Whether the bytes begin with those of `prefix`.
    pub fn starts_with(&self, prefix: &RawStr<'_>) -> (r: bool)
        ensures
            r == prefix@.is_prefix_of(self@),
    {
        let n: usize = prefix.bytes.len();
        if n > self.bytes.len() {
            return false;
        }
        let mut i: usize = 0;
        while i < n
            invariant
                i <= n,
                n == prefix@.len(),
                n <= self@.len(),
                forall|j: int| 0 <= j < i ==> self@[j] == prefix@[j],
            decreases n - i,
        {
            if self.bytes[i] != prefix.bytes[i] {
                assert(self@.subrange(0, n as int)[i as int] != prefix@[i as int]);
                return false;
            }
            i += 1;
        }
        assert(self@.subrange(0, n as int) =~= prefix@);
        true
    }

    /// Whether the bytes end with those of `suffix`.
    pub fn ends_with(&self, suffix: &RawStr<'_>) -> (r: bool)
        ensures
            r == suffix@.is_suffix_of(self@),
    {
        let n: usize = suffix.bytes.len();
        let m: usize = self.bytes.len();
        if n > m {
            return false;
        }
        let off: usize = m - n;
        let mut i: usize = 0;
        while i < n
            invariant
                i <= n,
                n == suffix@.len(),
                m == self@.len(),
                off == m - n,
                forall|j: int| 0 <= j < i ==> self@[off + j] == suffix@[j],
            decreases n - i,
        {
            if self.bytes[off + i] != suffix.bytes[i] {
                assert(self@.subrange(off as int, m as int)[i as int] != suffix@[i as int]);
                return false;
            }
            i += 1;
        }
        assert(self@.subrange(off as int, m as int) =~= suffix@);
        true
    }

    /// Whether the byte occurs anywhere.
    pub fn contains_byte(&self, b: u8) -> (r: bool)
        ensures
            r == self@.contains(b),
    {
        let n: usize = self.bytes.len();
        let mut i: usize = 0;
        while i < n
            invariant
                i <= n,
                n == self@.len(),
                forall|j: int| 0 <= j < i ==> self@[j] != b,
            decreases n - i,
        {
            if self.bytes[i] == b {
                return true;
            }
            i += 1;
        }
        false
    }

    /// Whether both hold the same bytes.
    pub fn equals(&self, other: &RawStr<'_>) -> (r: bool)
        ensures
            r == (self@ == other@),
    {
        if self.bytes.len() != other.bytes.len() {
            return false;
        }
        let r = self.starts_with(other);
        proof {
            if r {
                assert(self@.subrange(0, other@.len() as int) =~= self@);
            }
        }
        r
    }

    /// Whether the bytes are the UTF-8 encoding of `text`.
    pub fn equals_str(&self, text: &str) -> (r: bool)
        ensures
            r == (self@ == text.spec_bytes()),
    {
        let other = RawStr::of_str(text);
        self.equals(&other)
    }

    /// A copy of the bytes.
    pub fn to_vec(&self) -> (r: Vec<u8>)
        ensures
            r@ == self@,
    {
        slice_to_vec(self.bytes)
    }

    /// An owned copy.
    pub fn to_owned(&self) -> (r: RawString)
        ensures
            r@ == self@,
    {
        RawString { bytes: slice_to_vec(self.bytes) }
    }

    /// The text that the bytes encode, exactly; `InvalidData` where they are
    /// not well-formed UTF-8.
    pub fn to_text(&self) -> (r: Result<String, Error>)
        ensures
            valid_utf8(self@) ==> r is Ok && r->Ok_0@ == decode_utf8(self@),
            !valid_utf8(self@) ==> r is Err && r->Err_0 is InvalidData,
    {
        match text_from_utf8(slice_to_vec(self.bytes)) {
            Some(s) => {
                proof {
                    vstd::utf8::encode_utf8_decode_utf8(s@);
                }
                Ok(s)
            },
            None => Err(Error::InvalidData),
        }
    }

    /// The text that the bytes encode, for bytes known to be well-formed
    /// UTF-8.
    pub fn to_string_panicky(&self) -> (r: String)
        requires
            valid_utf8(self@),
        ensures
            r@ == decode_utf8(self@),
    {
        match self.to_text() {
            Ok(s) => s,
            Err(_) => vstd::pervasive::unreached(),
        }
    }

    /// A rendering for people: ill-formed bytes are replaced, so different
    /// strings can render alike.
    pub fn as_dbg(&self) -> (r: String)
        ensures
            r@ == lossy_text(self@),
            valid_utf8(self@) ==> r@ == decode_utf8(self@),
    {
        text_from_utf8_lossy(self.bytes)
    }

    /// The lines, in order. A line ends at a carriage return directly
    /// followed by a line feed; a line feed alone ends nothing.
    pub fn lines(&self) -> (r: Vec<RawStr<'a>>)
        ensures
            views(r@) == lines_of(self@),
    {
        let n: usize = self.bytes.len();
        let mut out: Vec<RawStr<'a>> = Vec::new();
        let mut start: usize = 0;
        let mut i: usize = 0;
        assert(views(out@) =~= Seq::<Seq<u8>>::empty());
        while i < n && i + 1 < n
            invariant
                n == self@.len(),
                start <= i,
                lines_of(self@) == views(out@) + lines_from(self@, start as int, i as int),
            decreases n - i,
        {
            if self.bytes[i] == CR && self.bytes[i + 1] == LF {
                let line = self.slice(start, i);
                proof {
                    assert(views(out@.push(line)) =~= views(out@) + seq![line@]);
                    assert(views(out@) + (seq![line@] + lines_from(self@, i + 2, i + 2))
                        =~= (views(out@) + seq![line@]) + lines_from(self@, i + 2, i + 2));
                }
                out.push(line);
                start = i + 2;
                i = i + 2;
            } else {
                i = i + 1;
            }
        }
        assert(lines_from(self@, start as int, i as int) =~= Seq::<Seq<u8>>::empty());
        assert(views(out@) + Seq::<Seq<u8>>::empty() =~= views(out@));
        out
    }

    /// Takes the bytes before the first `b` off the front, together with
    /// that `b`. Where there is no `b`, nothing changes.
    pub fn split_take(&mut self, b: u8) -> (r: Option<RawStr<'a>>)
        ensures
            old(self)@.contains(b) ==> r is Some && first_at(
                old(self)@,
                b,
                position(old(self)@, b),
            ) && r->Some_0@ == old(self)@.subrange(0, position(old(self)@, b))
                && final(self)@ == old(self)@.subrange(position(old(self)@, b) + 1, old(self)@.len() as int),
            !old(self)@.contains(b) ==> r is None && final(self)@ == old(self)@,
    {
        let n: usize = self.bytes.len();
        let mut i: usize = 0;
        while i < n
            invariant
                n == self@.len(),
                *self == *old(self),
                i <= n,
                forall|j: int| 0 <= j < i ==> self@[j] != b,
            decreases n - i,
        {
            if self.bytes[i] == b {
                proof {
                    lemma_position(self@, b, i as int);
                }
                let head = self.slice(0, i);
                let tail = self.slice(i + 1, n);
                *self = tail;
                return Some(head);
            }
            i += 1;
        }
        None
    }
}

impl RawString {
    /// Takes the given bytes as a string.
    pub fn new(bytes: Vec<u8>) -> (r: RawString)
        ensures
            r@ == bytes@,
    {
        RawString { bytes }
    }

    /// A copy of the UTF-8 encoding of a piece of text.
    pub fn of_str(text: &str) -> (r: RawString)
        ensures
            r@ == text.spec_bytes(),
    {
        RawString { bytes: text.as_bytes_vec() }
    }

    /// Borrows the bytes.
    pub fn as_str(&self) -> (r: RawStr<'_>)
        ensures
            r@ == self@,
    {
        RawStr { bytes: self.bytes.as_slice() }
    }

    /// The number of bytes.
    pub fn len(&self) -> (n: usize)
        ensures
            n == self@.len(),
    {
        self.bytes.len()
    }

    /// Adds one byte at the end.
    pub fn push(&mut self, b: u8)
        ensures
            final(self)@ == old(self)@.push(b),
    {
        self.bytes.push(b);
    }

    /// Adds the bytes of `rhs` at the end.
    pub fn append(&mut self, rhs: &RawStr<'_>)
        ensures
            final(self)@ == old(self)@ + rhs@,
    {
        self.bytes.extend_from_slice(rhs.bytes);
        assert(self@ =~= old(self)@ + rhs@);
    }

    /// Gives up the bytes.
    pub fn into_bytes(self) -> (r: Vec<u8>)
        ensures
            r@ == self@,
    {
        self.bytes
    }
}

impl Clone for RawString {
    fn clone(&self) -> (r: RawString)
        ensures
            r@ == self@,
    {
        RawString { bytes: slice_to_vec(self.bytes.as_slice()) }
    }
}

} // verus!
