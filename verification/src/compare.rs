//! Equality of strings by content, whatever their capacities, and hashing.

use crate::rocstr::RocStr;
use core::hash::Hash;
use core::hash::Hasher;
use vstd::prelude::*;
use vstd::std_specs::cmp::PartialEqSpecImpl;
use vstd::string::StringSliceAdditionalSpecFns;

verus! {

/// Tells whether two byte slices hold the same bytes.
pub fn same_bytes(left: &[u8], right: &[u8]) -> (same: bool)
    ensures
        same == (left@ == right@),
{
    if left.len() != right.len() {
        return false;
    }
    let mut i: usize = 0;
    while i < left.len()
        invariant
            i <= left@.len(),
            left@.len() == right@.len(),
            forall|j: int| 0 <= j < i ==> left@[j] == right@[j],
        decreases left@.len() - i,
    {
        if left[i] != right[i] {
            assert(left@[i as int] != right@[i as int]);
            return false;
        }
        i += 1;
    }
    assert(left@ =~= right@);
    true
}

impl<const SIZE: usize> Eq for RocStr<SIZE> {
}

impl<const SIZE: usize, const LEN: usize> PartialEq<RocStr<SIZE>> for RocStr<LEN> {
    /// Two strings are equal when they hold the same bytes; capacities do not count.
    #[inline]
    fn eq(&self, other: &RocStr<SIZE>) -> (equal: bool) {
        same_bytes(self.as_bytes(), other.as_bytes())
    }
}

impl<const SIZE: usize, const LEN: usize> PartialEqSpecImpl<RocStr<SIZE>> for RocStr<LEN> {
    open spec fn obeys_eq_spec() -> bool {
        true
    }

    open spec fn eq_spec(&self, other: &RocStr<SIZE>) -> bool {
        self@ == other@
    }
}

impl<const SIZE: usize> PartialEq<str> for RocStr<SIZE> {
    #[inline]
    fn eq(&self, other: &str) -> (equal: bool) {
        same_bytes(self.as_bytes(), other.as_bytes())
    }
}

impl<const SIZE: usize> PartialEqSpecImpl<str> for RocStr<SIZE> {
    open spec fn obeys_eq_spec() -> bool {
        true
    }

    open spec fn eq_spec(&self, other: &str) -> bool {
        self@ == other.spec_bytes()
    }
}

impl<'a, const SIZE: usize> PartialEq<&'a str> for RocStr<SIZE> {
    #[inline]
    fn eq(&self, other: &&'a str) -> (equal: bool) {
        same_bytes(self.as_bytes(), other.as_bytes())
    }
}

impl<'a, const SIZE: usize> PartialEqSpecImpl<&'a str> for RocStr<SIZE> {
    open spec fn obeys_eq_spec() -> bool {
        true
    }

    open spec fn eq_spec(&self, other: &&'a str) -> bool {
        self@ == other.spec_bytes()
    }
}

impl<const SIZE: usize> PartialEq<String> for RocStr<SIZE> {
    #[inline]
    fn eq(&self, other: &String) -> (equal: bool) {
        same_bytes(self.as_bytes(), other.as_str().as_bytes())
    }
}

impl<const SIZE: usize> PartialEqSpecImpl<String> for RocStr<SIZE> {
    open spec fn obeys_eq_spec() -> bool {
        true
    }

    open spec fn eq_spec(&self, other: &String) -> bool {
        self@ == vstd::utf8::encode_utf8(other@)
    }
}

impl<'a, const SIZE: usize> PartialEq<RocStr<SIZE>> for &'a str {
    #[inline]
    fn eq(&self, other: &RocStr<SIZE>) -> (equal: bool) {
        same_bytes(self.as_bytes(), other.as_bytes())
    }
}

impl<'a, const SIZE: usize> PartialEqSpecImpl<RocStr<SIZE>> for &'a str {
    open spec fn obeys_eq_spec() -> bool {
        true
    }

    open spec fn eq_spec(&self, other: &RocStr<SIZE>) -> bool {
        self.spec_bytes() == other@
    }
}

/// The bytes that hashing a string of content `bytes` feeds to the hasher: the
/// content, then one byte `0xff`, which no UTF-8 text holds.
pub open spec fn hash_stream(bytes: Seq<u8>) -> Seq<u8> {
    bytes.push(0xff)
}

/// Strings that are equal by content feed the hasher the same bytes, whatever
/// their capacities; strings that differ feed it different bytes.
pub proof fn lemma_hash_follows_equality<const SIZE: usize, const LEN: usize>(
    left: RocStr<SIZE>,
    right: RocStr<LEN>,
)
    ensures
        left@ == right@ <==> hash_stream(left@) == hash_stream(right@),
{
    if hash_stream(left@) == hash_stream(right@) {
        assert(left@ =~= hash_stream(left@).drop_last());
        assert(right@ =~= hash_stream(right@).drop_last());
    }
}

/// `Hasher::write`: feeds `bytes` to the hasher. Nothing is claimed of the
/// state it leaves, which is the hasher's own business.
#[verifier::external_body]
fn feed_bytes<H: Hasher>(hasher: &mut H, bytes: &[u8]) {
    hasher.write(bytes);
}

/// `Hasher::write_u8`: feeds one byte to the hasher. Nothing is claimed of the
/// state it leaves.
#[verifier::external_body]
fn feed_byte<H: Hasher>(hasher: &mut H, byte: u8) {
    hasher.write_u8(byte);
}

/// The two writes that hashing `text` makes: its bytes, then the byte that
/// ends them. Together they are `hash_stream` of the content.
pub fn hash_writes<const SIZE: usize>(text: &RocStr<SIZE>) -> (writes: (&[u8], u8))
    ensures
        writes.0@ == text@,
        writes.1 == 0xff,
        writes.0@.push(writes.1) == hash_stream(text@),
{
    (text.as_bytes(), 0xff)
}

impl<const SIZE: usize> Hash for RocStr<SIZE> {
    /// Feeds the hasher the two writes of `hash_writes`, in their order.
    #[inline]
    fn hash<H: Hasher>(&self, hasher: &mut H) {
        let (bytes, end) = hash_writes(self);
        feed_bytes(hasher, bytes);
        feed_byte(hasher, end);
    }
}

} // verus!
