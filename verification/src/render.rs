//! Debug formatting of a string: its text and its byte length.

use crate::rocstr::RocStr;
use core::fmt::Debug;
use core::fmt::Formatter;
use vstd::prelude::*;

verus! {

/// The formatter that `Debug::fmt` is handed, carried through to `write_fmt`.
#[verifier::external_type_specification]
#[verifier::external_body]
pub struct ExFormatter<'a>(Formatter<'a>);

/// The error of a formatter, carried through and never inspected.
#[verifier::external_type_specification]
#[verifier::external_body]
pub struct ExFmtError(core::fmt::Error);

/// `Formatter::write_fmt`: writes the text and the length as the fields
/// `inner` and `len` of a struct named `RocStr`. Nothing is claimed of what
/// the formatter then holds.
#[verifier::external_body]
fn write_fields(f: &mut Formatter<'_>, inner: &str, len: usize) -> (done: core::fmt::Result) {
    write!(f, "RocStr {{ inner: {:?}, len: {} }}", inner, len)
}

impl<const SIZE: usize> Debug for RocStr<SIZE> {
    /// Shows the text of the string, not its buffer, and its length in bytes.
    fn fmt(&self, f: &mut Formatter<'_>) -> (done: core::fmt::Result) {
        write_fields(f, self.as_str(), self.len())
    }
}

} // verus!
