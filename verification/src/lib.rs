//! An immutable, fixed-capacity, stack-resident copy string that is always
//! valid UTF-8.
//!
//! A [`RocStr`] holds at most `SIZE` bytes in place and is copied by value.
//! Text that does not fit is cut at a character boundary, never rejected and
//! never split inside a code point. The value of a string is its view, the
//! sequence of its bytes; every operation states its result over that view.

pub mod addition;
pub mod boundary;
pub mod compare;
pub mod decimal;
pub mod integers;
pub mod render;
pub mod replace;
pub mod rocerr;
pub mod rocstr;

pub use crate::rocerr::InsufficientCapacity;
pub use crate::rocstr::RocStr;
