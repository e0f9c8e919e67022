//! The errors that decoding a property can report.

use crate::slice_read::SliceReadError;
use core::str::Utf8Error;
use vstd::prelude::*;
use vstd::string::StringSliceAdditionalSpecFns;

verus! {

/// `core::str::Utf8Error`, carried through unread: the library only hands it to
/// the caller.
#[verifier::external_type_specification]
#[verifier::external_body]
pub struct ExUtf8Error(Utf8Error);

/// Why decoding a property failed.
#[derive(Debug, Clone, Copy)]
pub enum DevTreeError {
    /// The `width` bytes starting at `position` do not all lie inside the
    /// region that was read. The fields are `(position, width)`.
    InvalidOffset(usize, usize),
    /// A string ran to the end of its region without a terminating zero byte.
    UnexpectedEndOfInput,
    /// The region does not hold what was asked for: a single string was
    /// requested where there is none.
    ParseError,
    /// The bytes of a string are not valid UTF-8.
    StrError(Utf8Error),
    /// No node precedes a property, so none owns it. This is no fault of a
    /// value: the document, or the cursor that the property was found with,
    /// is broken.
    CorruptStructure,
}

impl DevTreeError {
    /// The error that a failed read becomes: the same kind, with the same
    /// position and width.
    pub open spec fn of_read(e: SliceReadError) -> DevTreeError {
        match e {
            SliceReadError::InvalidOffset(position, width) => DevTreeError::InvalidOffset(
                position,
                width,
            ),
            SliceReadError::UnexpectedEndOfInput => DevTreeError::UnexpectedEndOfInput,
        }
    }

    /// Turns the error of a failed read into the error that a property
    /// reports: the same kind, with the same position and width.
    pub fn from_read(e: SliceReadError) -> (r: DevTreeError)
        ensures
            r == Self::of_read(e),
    {
        match e {
            SliceReadError::InvalidOffset(position, width) => DevTreeError::InvalidOffset(
                position,
                width,
            ),
            SliceReadError::UnexpectedEndOfInput => DevTreeError::UnexpectedEndOfInput,
        }
    }
}

/// `core::str::from_utf8` accepts exactly the byte sequences that are valid
/// UTF-8, and the string it returns is made of the very bytes it was given.
pub assume_specification[ core::str::from_utf8 ](v: &[u8]) -> (r: Result<&str, Utf8Error>)
    ensures
        r is Ok <==> vstd::utf8::valid_utf8(v@),
        r matches Ok(s) ==> s.spec_bytes() == v@,
;

} // verus!
