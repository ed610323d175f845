//! The error of call sites that want a failure where a string does not fit.

use crate::boundary::extract_within;
use crate::rocstr::RocStr;
use vstd::prelude::*;
use vstd::std_specs::convert::FromSpecImpl;
use vstd::string::StringSliceAdditionalSpecFns;
use vstd::utf8::*;

verus! {

/// The message of an error that was given none.
pub const DEFAULT_MESSAGE: &'static str = "CAPACITY ERROR : this RocStr cannot contains this string.";

/// An error that says that some text did not fit a capacity. It holds a
/// message of at most `SIZE` bytes and nothing else.
#[derive(Copy, Clone, Debug, PartialEq, Eq, Hash)]
pub struct InsufficientCapacity<const SIZE: usize>(RocStr<SIZE>);

impl<const SIZE: usize> View for InsufficientCapacity<SIZE> {
    type V = Seq<u8>;

    /// The bytes of the message.
    closed spec fn view(&self) -> Seq<u8> {
        self.0@
    }
}

impl<const SIZE: usize> InsufficientCapacity<SIZE> {
    /// The error whose message is `message`.
    pub closed spec fn with_message(message: RocStr<SIZE>) -> Self {
        InsufficientCapacity(message)
    }

    /// The message of this error.
    pub fn message(&self) -> (message: RocStr<SIZE>)
        ensures
            message@ == self@,
            *self == Self::with_message(message),
    {
        self.0
    }

    /// Renders the message of this error as an owned `String`.
    pub fn to_string(&self) -> (rendered: String)
        ensures
            rendered@ == decode_utf8(self@),
    {
        self.0.to_string()
    }
}

impl<const SIZE: usize> From<RocStr<SIZE>> for InsufficientCapacity<SIZE> {
    /// The error whose message is `value`.
    #[inline]
    fn from(value: RocStr<SIZE>) -> (error: Self)
        ensures
            error@ == value@,
    {
        Self(value)
    }
}

impl<const SIZE: usize> FromSpecImpl<RocStr<SIZE>> for InsufficientCapacity<SIZE> {
    open spec fn obeys_from_spec() -> bool {
        true
    }

    open spec fn from_spec(value: RocStr<SIZE>) -> Self {
        Self::with_message(value)
    }
}

impl<'a, const SIZE: usize> From<&'a str> for InsufficientCapacity<SIZE> {
    /// The error whose message is as much of `value` as fits.
    #[inline]
    fn from(value: &'a str) -> (error: Self)
        ensures
            error@ == extract_within(value.spec_bytes(), SIZE as int),
            value.spec_bytes().len() <= SIZE ==> error@ == value.spec_bytes(),
    {
        Self(RocStr::from(value))
    }
}

impl<'a, const SIZE: usize> FromSpecImpl<&'a str> for InsufficientCapacity<SIZE> {
    open spec fn obeys_from_spec() -> bool {
        true
    }

    open spec fn from_spec(value: &'a str) -> Self {
        Self::with_message(RocStr::<SIZE>::holding(extract_within(value.spec_bytes(), SIZE as int)))
    }
}

impl Default for InsufficientCapacity<57> {
    /// The error with the default message, which fits exactly.
    #[inline]
    fn default() -> (error: Self)
        ensures
            error@ == DEFAULT_MESSAGE.spec_bytes(),
    {
        proof {
            reveal_strlit("CAPACITY ERROR : this RocStr cannot contains this string.");
            broadcast use is_ascii_chars_encode_utf8;
            assert(vstd::utf8::is_ascii_chars(DEFAULT_MESSAGE@));
            assert(DEFAULT_MESSAGE.spec_bytes().len() == 57);
        }
        Self::from(DEFAULT_MESSAGE)
    }
}

} // verus!
