use crate::error::Error;
use crate::raw::{RawStr, RawString};
use vstd::prelude::*;
use vstd::string::StringSliceAdditionalSpecFns;
use vstd::utf8::decode_utf8;
use vstd::utf8::valid_utf8;

verus! {

/// The byte that separates the segments of a path.
pub const SLASH: u8 = 47;

/// A borrowed string of bytes that names a place in the device's tree.
#[derive(Clone, Copy, Debug)]
pub struct RawPath<'a> {
    inner: RawStr<'a>,
}

/// An owned path.
#[derive(Debug)]
pub struct RawPathBuf {
    inner: RawString,
}

impl<'a> View for RawPath<'a> {
    type V = Seq<u8>;

    closed spec fn view(&self) -> Seq<u8> {
        self.inner@
    }
}

impl View for RawPathBuf {
    type V = Seq<u8>;

    closed spec fn view(&self) -> Seq<u8> {
        self.inner@
    }
}

/// The last byte is a separator.
pub open spec fn ends_with_slash(s: Seq<u8>) -> bool {
    s.len() > 0 && s[s.len() - 1] == SLASH
}

/// The first byte is a separator.
pub open spec fn starts_with_slash(s: Seq<u8>) -> bool {
    s.len() > 0 && s[0] == SLASH
}

/// `s` without one separator at its end, if it has one there.
pub open spec fn without_trailing_slash(s: Seq<u8>) -> Seq<u8> {
    if ends_with_slash(s) {
        s.subrange(0, s.len() - 1)
    } else {
        s
    }
}

/// `s` without one separator at its start, if it has one there.
pub open spec fn without_leading_slash(s: Seq<u8>) -> Seq<u8> {
    if starts_with_slash(s) {
        s.subrange(1, s.len() as int)
    } else {
        s
    }
}

/// The two paths put together with exactly one separator where they meet:
/// a separator that either side brings to the boundary is not repeated.
pub open spec fn joined(a: Seq<u8>, b: Seq<u8>) -> Seq<u8> {
    without_trailing_slash(a) + seq![SLASH] + without_leading_slash(b)
}

/// Joining a side that has no separator at the boundary puts one in; a
/// separator that either side, or both, already carry there is kept once.
pub proof fn law_join_single_slash(a: Seq<u8>, b: Seq<u8>)
    requires
        !ends_with_slash(a),
        !starts_with_slash(b),
    ensures
        joined(a, b) == a + seq![SLASH] + b,
        joined(a + seq![SLASH], b) == joined(a, b),
        joined(a, seq![SLASH] + b) == joined(a, b),
        joined(a + seq![SLASH], seq![SLASH] + b) == joined(a, b),
{
    let a1 = a + seq![SLASH];
    let b1 = seq![SLASH] + b;
    assert(ends_with_slash(a1));
    assert(starts_with_slash(b1));
    assert(without_trailing_slash(a1) =~= a);
    assert(without_leading_slash(b1) =~= b);
}

/// Taking a directory's path off the front of the path of something in it
/// gives back that thing's name: for `p` that ends in a separator and a
/// name `x` without one, `p` joined with `x` begins with `p` and goes on
/// with exactly `x`.
pub proof fn law_without_prefix_of_join(p: Seq<u8>, x: Seq<u8>)
    requires
        ends_with_slash(p),
        !x.contains(SLASH),
    ensures
        p.is_prefix_of(joined(p, x)),
        joined(p, x).subrange(p.len() as int, joined(p, x).len() as int) == x,
{
    if x.len() > 0 {
        assert(x.contains(x[0]));
    }
    assert(!starts_with_slash(x));
    let j = joined(p, x);
    assert(j =~= p + x);
    assert(j.subrange(0, p.len() as int) =~= p);
    assert(j.subrange(p.len() as int, j.len() as int) =~= x);
}

impl<'a> RawPath<'a> {
    /// Views the given bytes as a path, without copying.
    pub fn new(data: &'a [u8]) -> (r: RawPath<'a>)
        ensures
            r@ == data@,
    {
        RawPath { inner: RawStr::new(data) }
    }

    /// Views the UTF-8 encoding of a piece of text as a path.
    pub fn of_str(text: &'a str) -> (r: RawPath<'a>)
        ensures
            r@ == text.spec_bytes(),
    {
        RawPath { inner: RawStr::of_str(text) }
    }

    /// Views a string as a path.
    pub fn from_raw(raw: RawStr<'a>) -> (r: RawPath<'a>)
        ensures
            r@ == raw@,
    {
        RawPath { inner: raw }
    }

    /// The path as a plain string of bytes.
    pub fn as_raw(&self) -> (r: RawStr<'a>)
        ensures
            r@ == self@,
    {
        self.inner
    }

    /// The number of bytes.
    pub fn len(&self) -> (n: usize)
        ensures
            n == self@.len(),
    {
        self.inner.len()
    }

    /// An owned copy.
    pub fn to_owned(&self) -> (r: RawPathBuf)
        ensures
            r@ == self@,
    {
        RawPathBuf { inner: self.inner.to_owned() }
    }

    /// The part up to and including the last separator; `None` where the
    /// path holds no separator.
    pub fn directory(&self) -> (r: Option<RawPath<'a>>)
        ensures
            r is Some <==> self@.contains(SLASH),
            r matches Some(d) ==> d@.is_prefix_of(self@) && ends_with_slash(d@)
                && !self@.subrange(d@.len() as int, self@.len() as int).contains(SLASH),
    {
        let n: usize = self.inner.len();
        let mut i: usize = n;
        while i > 0
            invariant
                i <= n,
                n == self@.len(),
                forall|j: int| i <= j < n ==> self@[j] != SLASH,
            decreases i,
        {
            if self.inner.byte_at(i - 1) == SLASH {
                let d = RawPath { inner: self.inner.slice(0, i) };
                assert(self@.contains(SLASH));
                return Some(d);
            }
            i -= 1;
        }
        None
    }

    /// The rest of the path after `prefix`, which must be how the path
    /// begins. The bytes are compared as they are: path segments play no
    /// part.
    pub fn without_prefix(&self, prefix: &RawPath<'_>) -> (r: RawPath<'a>)
        requires
            prefix@.is_prefix_of(self@),
        ensures
            r@ == self@.subrange(prefix@.len() as int, self@.len() as int),
    {
        RawPath { inner: self.inner.slice(prefix.inner.len(), self.inner.len()) }
    }

    /// The rest of the path after `prefix`, or `InvalidData` where the path
    /// does not begin with `prefix`.
    pub fn try_without_prefix(&self, prefix: &RawPath<'_>) -> (r: Result<RawPath<'a>, Error>)
        ensures
            prefix@.is_prefix_of(self@) ==> r is Ok && r->Ok_0@ == self@.subrange(
                prefix@.len() as int,
                self@.len() as int,
            ),
            !prefix@.is_prefix_of(self@) ==> r is Err && r->Err_0 is InvalidData,
    {
        if self.inner.starts_with(&prefix.inner) {
            Ok(self.without_prefix(prefix))
        } else {
            Err(Error::InvalidData)
        }
    }

    /// Whether the path ends with the given bytes.
    pub fn ends_with(&self, suffix: &RawStr<'_>) -> (r: bool)
        ensures
            r == suffix@.is_suffix_of(self@),
    {
        self.inner.ends_with(suffix)
    }

    /// The text that the path encodes, exactly; `InvalidData` where it is
    /// not well-formed UTF-8.
    pub fn to_text(&self) -> (r: Result<String, Error>)
        ensures
            valid_utf8(self@) ==> r is Ok && r->Ok_0@ == decode_utf8(self@),
            !valid_utf8(self@) ==> r is Err && r->Err_0 is InvalidData,
    {
        self.inner.to_text()
    }

    /// The text that the path encodes, for a path known to be well-formed
    /// UTF-8.
    pub fn to_string_panicky(&self) -> (r: String)
        requires
            valid_utf8(self@),
        ensures
            r@ == decode_utf8(self@),
    {
        self.inner.to_string_panicky()
    }

    /// This path and a name under it, put together with one separator.
    pub fn join(&self, other: &RawStr<'_>) -> (r: RawPathBuf)
        requires
            self@.len() + other@.len() < usize::MAX,
        ensures
            r@ == joined(self@, other@),
    {
        let other_path = RawPath { inner: *other };
        self.join_impl(&other_path)
    }

    /// This path and another, put together with one separator: one that
    /// both bring to the boundary is kept once.
    pub fn join_impl(&self, other: &RawPath<'_>) -> (r: RawPathBuf)
        requires
            self@.len() + other@.len() < usize::MAX,
        ensures
            r@ == joined(self@, other@),
    {
        let n: usize = self.inner.len();
        let m: usize = other.inner.len();
        let trailing: bool = n > 0 && self.inner.byte_at(n - 1) == SLASH;
        let leading: bool = m > 0 && other.inner.byte_at(0) == SLASH;
        let head = if trailing {
            self.inner.slice(0, n - 1)
        } else {
            self.inner
        };
        let tail = if leading {
            other.inner.slice(1, m)
        } else {
            other.inner
        };
        let mut result = head.to_owned();
        result.push(SLASH);
        result.append(&tail);
        RawPathBuf { inner: result }
    }
}

impl RawPathBuf {
    /// Takes a string as a path.
    pub fn new(raw: RawString) -> (r: RawPathBuf)
        ensures
            r@ == raw@,
    {
        RawPathBuf { inner: raw }
    }

    /// A path that holds the UTF-8 encoding of a piece of text.
    pub fn of_str(text: &str) -> (r: RawPathBuf)
        ensures
            r@ == text.spec_bytes(),
    {
        RawPathBuf { inner: RawString::of_str(text) }
    }

    /// Borrows the path.
    pub fn as_path(&self) -> (r: RawPath<'_>)
        ensures
            r@ == self@,
    {
        RawPath { inner: self.inner.as_str() }
    }

    /// Gives up the bytes.
    pub fn into_raw(self) -> (r: RawString)
        ensures
            r@ == self@,
    {
        self.inner
    }
}

impl Clone for RawPathBuf {
    fn clone(&self) -> (r: RawPathBuf)
        ensures
            r@ == self@,
    {
        RawPathBuf { inner: self.inner.clone() }
    }
}

} // verus!
