//! An immutable fixed capacity stack based generic copy string.

use crate::boundary::extract_utf8_within;
use crate::boundary::extract_within;
use crate::boundary::lemma_extract_within_whole;
use vstd::array::spec_array_fill_for_copy_type;
use vstd::pervasive::unreached;
use vstd::prelude::*;
use vstd::std_specs::convert::FromSpecImpl;
use vstd::string::StringSliceAdditionalSpecFns;
use vstd::utf8::*;

verus! {

/// The error of `core::str::from_utf8`, carried through and never inspected.
#[verifier::external_type_specification]
#[verifier::external_body]
pub struct ExUtf8Error(core::str::Utf8Error);

/// `core::str::from_utf8` accepts exactly the byte slices that are valid UTF-8,
/// and the string slice it hands back is made of the very bytes it was given.
pub assume_specification[ core::str::from_utf8 ](v: &[u8]) -> (r: Result<
    &str,
    core::str::Utf8Error,
>)
    ensures
        r is Ok <==> valid_utf8(v@),
        r matches Ok(s) ==> s.spec_bytes() == v@,
;

/// A string of at most `SIZE` bytes, stored in place and copied by value.
///
/// The value of a `RocStr` is its view, the sequence of its live bytes, which is
/// always valid UTF-8. Bytes of the buffer past the length are zero, so two
/// values of one capacity with the same view are the same value.
#[derive(Copy, Clone)]
pub struct RocStr<const SIZE: usize> {
    inner: [u8; SIZE],
    len: usize,
}

impl<const SIZE: usize> View for RocStr<SIZE> {
    type V = Seq<u8>;

    closed spec fn view(&self) -> Seq<u8> {
        self.inner@.subrange(0, self.len as int)
    }
}

/// A buffer of `SIZE` zero bytes.
pub(crate) fn zeroed<const SIZE: usize>() -> (buffer: [u8; SIZE])
    ensures
        forall|i: int| 0 <= i < SIZE ==> buffer@[i] == 0,
{
    let buffer = [0u8; SIZE];
    assert(buffer == spec_array_fill_for_copy_type::<u8, SIZE>(0u8));
    buffer
}

/// Copies `head`, then `tail`, into a zeroed buffer of `SIZE` bytes.
fn filled<const SIZE: usize>(head: &[u8], tail: &[u8]) -> (inner: [u8; SIZE])
    requires
        head@.len() + tail@.len() <= SIZE,
    ensures
        inner@.subrange(0, (head@.len() + tail@.len()) as int) == head@ + tail@,
        forall|i: int| head@.len() + tail@.len() <= i < SIZE ==> inner@[i] == 0,
{
    let mut inner = zeroed::<SIZE>();
    let mut i: usize = 0;
    while i < head.len()
        invariant
            i <= head@.len() <= SIZE,
            forall|j: int| 0 <= j < i ==> inner@[j] == head@[j],
            forall|j: int| i <= j < SIZE ==> inner@[j] == 0,
        decreases head@.len() - i,
    {
        inner[i] = head[i];
        i += 1;
    }
    let mut k: usize = 0;
    while k < tail.len()
        invariant
            k <= tail@.len(),
            i == head@.len(),
            i + tail@.len() <= SIZE,
            forall|j: int| 0 <= j < i ==> inner@[j] == head@[j],
            forall|j: int| 0 <= j < k ==> inner@[i + j] == tail@[j],
            forall|j: int| i + k <= j < SIZE ==> inner@[j] == 0,
        decreases tail@.len() - k,
    {
        inner[i + k] = tail[k];
        k += 1;
    }
    assert(inner@.subrange(0, (head@.len() + tail@.len()) as int) =~= head@ + tail@);
    inner
}

impl<const SIZE: usize> RocStr<SIZE> {
    #[verifier::type_invariant]
    spec fn well_formed(&self) -> bool {
        &&& self.len <= SIZE
        &&& valid_utf8(self.inner@.subrange(0, self.len as int))
        &&& forall|i: int| self.len <= i < SIZE ==> self.inner@[i] == 0
    }

    /// The characters of this string.
    pub open spec fn text(&self) -> Seq<char> {
        decode_utf8(self@)
    }

    /// The string of this capacity whose view is `bytes`. It is what every
    /// operation that yields a string with that view returns.
    pub closed spec fn holding(bytes: Seq<u8>) -> Self {
        choose|s: Self| s.well_formed() && s@ == bytes
    }

    /// A well-formed string is the one that holds its view.
    proof fn lemma_is_holding(self)
        requires
            self.well_formed(),
        ensures
            self == Self::holding(self@),
    {
        let other = Self::holding(self@);
        assert(other.well_formed() && other@ == self@);
        assert(other.len == self.len) by {
            assert(other@.len() == other.len);
            assert(self@.len() == self.len);
        }
        assert forall|i: int| 0 <= i < SIZE implies other.inner[i] == self.inner[i] by {
            if i < self.len {
                assert(other@[i] == other.inner@[i]);
                assert(self@[i] == self.inner@[i]);
            }
        }
        assert(other.inner =~= self.inner);
    }

    /// Builds the string that holds `bytes`, which must be valid UTF-8 and fit.
    pub(crate) fn from_valid(bytes: &[u8]) -> (s: Self)
        requires
            bytes@.len() <= SIZE,
            valid_utf8(bytes@),
        ensures
            s@ == bytes@,
            s == Self::holding(bytes@),
    {
        let empty: [u8; 0] = [];
        assert(bytes@ + empty@ =~= bytes@);
        Self::from_valid_parts(bytes, empty.as_slice())
    }

    /// Builds the string that holds `head` followed by `tail`, which together
    /// must be valid UTF-8 and fit.
    pub(crate) fn from_valid_parts(head: &[u8], tail: &[u8]) -> (s: Self)
        requires
            head@.len() + tail@.len() <= SIZE,
            valid_utf8(head@ + tail@),
        ensures
            s@ == head@ + tail@,
            s == Self::holding(head@ + tail@),
    {
        let s = Self { inner: filled(head, tail), len: head.len() + tail.len() };
        proof {
            s.lemma_is_holding();
        }
        s
    }

    /// Extracts a slice of bytes containing the entire string.
    pub fn as_bytes(&self) -> (bytes: &[u8])
        ensures
            bytes@ == self@,
            bytes@.len() <= SIZE,
            valid_utf8(bytes@),
    {
        proof {
            use_type_invariant(self);
        }
        let whole = self.inner.as_slice();
        &whole[0..self.len]
    }

    /// Extracts a string slice containing the entire string.
    pub fn as_str(&self) -> (s: &str)
        ensures
            s.spec_bytes() == self@,
            s@ == self.text(),
    {
        broadcast use encode_utf8_decode_utf8;

        match core::str::from_utf8(self.as_bytes()) {
            Ok(s) => s,
            Err(_) => unreached(),
        }
    }

    /// Returns the capacity of this string, in bytes.
    #[inline]
    #[must_use]
    pub fn capacity(&self) -> (capacity: usize)
        ensures
            capacity == SIZE,
    {
        SIZE
    }

    /// Returns `true` if this string holds no byte.
    #[inline]
    #[must_use]
    pub fn is_empty(&self) -> (empty: bool)
        ensures
            empty == (self@.len() == 0),
    {
        proof {
            use_type_invariant(self);
        }
        self.len == 0
    }

    /// Returns the length of this string in bytes, not in characters.
    #[inline]
    #[must_use]
    pub fn len(&self) -> (len: usize)
        ensures
            len == self@.len(),
            len <= SIZE,
    {
        proof {
            use_type_invariant(self);
        }
        self.len
    }

    /// Returns a copy of this string with capacity `LEN`, cut at a character
    /// boundary if it is longer than `LEN` bytes.
    #[inline]
    #[must_use]
    pub fn reshape<const LEN: usize>(&self) -> (reshaped: RocStr<LEN>)
        ensures
            reshaped@ == extract_within(self@, LEN as int),
            self@.len() <= LEN ==> reshaped@ == self@,
    {
        proof {
            if self@.len() <= LEN {
                lemma_extract_within_whole(self@, LEN as int);
            }
        }
        RocStr::from_valid(extract_utf8_within(self.as_bytes(), LEN))
    }

    /// Returns the longest prefix of this string that has at most `len` bytes
    /// and ends at a character boundary. This string remains unchanged.
    #[inline]
    #[must_use]
    pub fn truncate(&self, len: usize) -> (truncated: Self)
        ensures
            truncated@ == extract_within(self@, len as int),
            truncated@.len() <= len,
    {
        Self::from_valid(extract_utf8_within(self.as_bytes(), len))
    }

    /// Returns `true` if the bytes of `pattern` are a prefix of this string.
    pub fn starts_with(&self, pattern: &str) -> (found: bool)
        ensures
            found == pattern.spec_bytes().is_prefix_of(self@),
    {
        let bytes = self.as_bytes();
        let prefix = pattern.as_bytes();
        if prefix.len() > bytes.len() {
            return false;
        }
        let mut i: usize = 0;
        while i < prefix.len()
            invariant
                i <= prefix@.len() <= bytes@.len(),
                bytes@ == self@,
                prefix@ == pattern.spec_bytes(),
                forall|j: int| 0 <= j < i ==> prefix@[j] == bytes@[j],
            decreases prefix@.len() - i,
        {
            if prefix[i] != bytes[i] {
                assert(bytes@.subrange(0, prefix@.len() as int)[i as int] != prefix@[i as int]);
                return false;
            }
            i += 1;
        }
        assert(bytes@.subrange(0, prefix@.len() as int) =~= prefix@);
        true
    }

    /// Renders this string as an owned `String` with the same characters.
    pub fn to_string(&self) -> (rendered: String)
        ensures
            rendered@ == self.text(),
    {
        self.as_str().to_owned()
    }
}

impl<const SIZE: usize> Default for RocStr<SIZE> {
    /// The empty string.
    fn default() -> (s: Self)
        ensures
            s@ == Seq::<u8>::empty(),
            s == Self::holding(Seq::<u8>::empty()),
    {
        let s = Self { inner: zeroed::<SIZE>(), len: 0 };
        proof {
            assert(s.inner@.subrange(0, 0) =~= Seq::<u8>::empty());
            s.lemma_is_holding();
        }
        s
    }
}

impl<'a, const SIZE: usize> From<&'a str> for RocStr<SIZE> {
    /// Copies as much of `value` as fits, cut at a character boundary.
    #[inline]
    fn from(value: &'a str) -> (s: Self)
        ensures
            s@ == extract_within(value.spec_bytes(), SIZE as int),
            value.spec_bytes().len() <= SIZE ==> s@ == value.spec_bytes() && s.text() == value@,
            valid_utf8(s@),
            s@.len() <= SIZE,
    {
        broadcast use encode_utf8_valid_utf8, encode_utf8_decode_utf8;

        proof {
            if value.spec_bytes().len() <= SIZE {
                lemma_extract_within_whole(value.spec_bytes(), SIZE as int);
            }
        }
        Self::from_valid(extract_utf8_within(value.as_bytes(), SIZE))
    }
}

impl<'a, const SIZE: usize> FromSpecImpl<&'a str> for RocStr<SIZE> {
    open spec fn obeys_from_spec() -> bool {
        true
    }

    open spec fn from_spec(value: &'a str) -> Self {
        Self::holding(extract_within(value.spec_bytes(), SIZE as int))
    }
}

impl<'a, const SIZE: usize> From<&'a RocStr<SIZE>> for &'a str {
    #[inline]
    fn from(value: &'a RocStr<SIZE>) -> (s: Self)
        ensures
            s.spec_bytes() == value@,
            s@ == value.text(),
    {
        value.as_str()
    }
}

impl<'a, const SIZE: usize> FromSpecImpl<&'a RocStr<SIZE>> for &'a str {
    open spec fn obeys_from_spec() -> bool {
        false
    }

    open spec fn from_spec(value: &'a RocStr<SIZE>) -> Self {
        arbitrary()
    }
}

impl<'a, const SIZE: usize> From<&'a RocStr<SIZE>> for &'a [u8] {
    #[inline]
    fn from(value: &'a RocStr<SIZE>) -> (bytes: Self)
        ensures
            bytes@ == value@,
    {
        value.as_bytes()
    }
}

impl<'a, const SIZE: usize> FromSpecImpl<&'a RocStr<SIZE>> for &'a [u8] {
    open spec fn obeys_from_spec() -> bool {
        false
    }

    open spec fn from_spec(value: &'a RocStr<SIZE>) -> Self {
        arbitrary()
    }
}

} // verus!
