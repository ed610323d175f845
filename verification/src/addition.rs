//! Concatenation within the capacity of the left operand.

use crate::boundary::extract_utf8_within;
use crate::boundary::extract_within;
use crate::boundary::lemma_extract_within_whole;
use crate::rocstr::RocStr;
use core::ops::Add;
use vstd::prelude::*;
use vstd::std_specs::ops::AddSpecImpl;
use vstd::string::StringSliceAdditionalSpecFns;
use vstd::utf8::*;

verus! {

/// The content of `left + right` at capacity `capacity`: `left`, then as much
/// of `right` as the remaining room holds, cut at a character boundary.
pub open spec fn concat_within(left: Seq<u8>, right: Seq<u8>, capacity: int) -> Seq<u8> {
    left + extract_within(right, capacity - left.len())
}

/// Where both operands fit, nothing is cut off.
pub proof fn lemma_concat_within_fits(left: Seq<u8>, right: Seq<u8>, capacity: int)
    requires
        left.len() + right.len() <= capacity,
    ensures
        concat_within(left, right, capacity) == left + right,
{
    lemma_extract_within_whole(right, capacity - left.len());
}

/// The concatenation never exceeds the capacity and is valid UTF-8.
pub proof fn lemma_concat_within_bounded(left: Seq<u8>, right: Seq<u8>, capacity: int)
    requires
        left.len() <= capacity,
        valid_utf8(left),
        valid_utf8(right),
    ensures
        concat_within(left, right, capacity).len() <= capacity,
        valid_utf8(concat_within(left, right, capacity)),
        left.is_prefix_of(concat_within(left, right, capacity)),
{
    crate::boundary::lemma_boundary_within_bounds(right, capacity - left.len());
    crate::boundary::lemma_extract_within_valid(right, capacity - left.len());
    valid_utf8_concat(left, extract_within(right, capacity - left.len()));
    assert(concat_within(left, right, capacity).subrange(0, left.len() as int) =~= left);
}

/// Appends to `left` as much of `right` as its capacity still holds.
pub fn append<const SIZE: usize>(left: &RocStr<SIZE>, right: &[u8]) -> (sum: RocStr<SIZE>)
    requires
        valid_utf8(right@),
    ensures
        sum@ == concat_within(left@, right@, SIZE as int),
        sum == RocStr::<SIZE>::holding(concat_within(left@, right@, SIZE as int)),
        left@.len() + right@.len() <= SIZE ==> sum@ == left@ + right@,
        sum@.len() <= SIZE,
        valid_utf8(sum@),
{
    let head = left.as_bytes();
    let tail = extract_utf8_within(right, SIZE - head.len());
    proof {
        lemma_concat_within_bounded(left@, right@, SIZE as int);
        if left@.len() + right@.len() <= SIZE {
            lemma_concat_within_fits(left@, right@, SIZE as int);
        }
    }
    RocStr::from_valid_parts(head, tail)
}

impl<'a, const SIZE: usize> Add<&'a str> for RocStr<SIZE> {
    type Output = Self;

    /// Appends as much of `rhs` as the capacity still holds.
    fn add(self, rhs: &'a str) -> (sum: Self)
        ensures
            sum@ == concat_within(self@, rhs.spec_bytes(), SIZE as int),
            sum@.len() <= SIZE,
            valid_utf8(sum@),
    {
        broadcast use encode_utf8_valid_utf8;

        append(&self, rhs.as_bytes())
    }
}

impl<'a, const SIZE: usize> AddSpecImpl<&'a str> for RocStr<SIZE> {
    open spec fn obeys_add_spec() -> bool {
        true
    }

    open spec fn add_req(self, rhs: &'a str) -> bool {
        true
    }

    open spec fn add_spec(self, rhs: &'a str) -> Self {
        Self::holding(concat_within(self@, rhs.spec_bytes(), SIZE as int))
    }
}

impl<const SIZE: usize> Add<String> for RocStr<SIZE> {
    type Output = Self;

    /// Appends as much of `rhs` as the capacity still holds.
    fn add(self, rhs: String) -> (sum: Self)
        ensures
            sum@ == concat_within(self@, encode_utf8(rhs@), SIZE as int),
            sum@.len() <= SIZE,
            valid_utf8(sum@),
    {
        broadcast use encode_utf8_valid_utf8;

        append(&self, rhs.as_str().as_bytes())
    }
}

impl<const SIZE: usize> AddSpecImpl<String> for RocStr<SIZE> {
    open spec fn obeys_add_spec() -> bool {
        true
    }

    open spec fn add_req(self, rhs: String) -> bool {
        true
    }

    open spec fn add_spec(self, rhs: String) -> Self {
        Self::holding(concat_within(self@, encode_utf8(rhs@), SIZE as int))
    }
}

impl<const SIZE: usize, const LEN: usize> Add<RocStr<LEN>> for RocStr<SIZE> {
    type Output = Self;

    /// Appends as much of `rhs` as the capacity still holds. The capacity of
    /// the sum is that of the left operand.
    fn add(self, rhs: RocStr<LEN>) -> (sum: Self)
        ensures
            sum@ == concat_within(self@, rhs@, SIZE as int),
            sum@.len() <= SIZE,
            valid_utf8(sum@),
    {
        append(&self, rhs.as_bytes())
    }
}

impl<const SIZE: usize, const LEN: usize> AddSpecImpl<RocStr<LEN>> for RocStr<SIZE> {
    open spec fn obeys_add_spec() -> bool {
        true
    }

    open spec fn add_req(self, rhs: RocStr<LEN>) -> bool {
        true
    }

    open spec fn add_spec(self, rhs: RocStr<LEN>) -> Self {
        Self::holding(concat_within(self@, rhs@, SIZE as int))
    }
}

} // verus!
