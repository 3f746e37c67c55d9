//! Failures a byte source can report, each with the offset at which it arose.

use vstd::prelude::*;

verus! {

/// `std::io::Error`, carried through unopened: the library hands it back to
/// the caller exactly as the byte channel produced it.
#[verifier::external_type_specification]
#[verifier::external_body]
pub struct ExIoError(std::io::Error);

/// What went wrong.
#[derive(Debug)]
pub enum ErrorCode {
    /// The byte channel reported a failure other than the end of the stream.
    Io(std::io::Error),
    /// The input ended before the requested bytes were complete.
    EofWhileParsingValue,
}

/// A failure together with the byte offset at which it was detected.
#[derive(Debug)]
pub struct Error {
    pub code: ErrorCode,
    pub offset: u64,
}

/// Result of an operation that can fail with a located [`Error`].
pub type Result<T> = core::result::Result<T, Error>;

/// Result of an operation whose only failure is that of the byte channel.
pub type IoResult<T> = core::result::Result<T, std::io::Error>;

impl Error {
    /// A failure of the input's shape, detected at `offset`.
    pub fn syntax(code: ErrorCode, offset: u64) -> (e: Error)
        ensures
            e == (Error { code, offset }),
    {
        Error { code, offset }
    }

    /// A failure of the byte channel, surfaced unchanged, detected at `offset`.
    pub fn io(error: std::io::Error, offset: u64) -> (e: Error)
        ensures
            e == (Error { code: ErrorCode::Io(error), offset }),
    {
        Error { code: ErrorCode::Io(error), offset }
    }

    /// The end-of-input failure at `offset`.
    pub open spec fn eof_at(offset: u64) -> Error {
        Error { code: ErrorCode::EofWhileParsingValue, offset }
    }

    /// The byte offset at which the failure was detected.
    pub fn offset(&self) -> (o: u64)
        ensures
            o == self.offset,
    {
        self.offset
    }

    /// Whether the failure is the end of the input.
    pub fn is_eof(&self) -> (b: bool)
        ensures
            b == (self.code is EofWhileParsingValue),
    {
        match self.code {
            ErrorCode::EofWhileParsingValue => true,
            ErrorCode::Io(_) => false,
        }
    }

    /// Whether the failure came from the byte channel.
    pub fn is_io(&self) -> (b: bool)
        ensures
            b == (self.code is Io),
    {
        match self.code {
            ErrorCode::EofWhileParsingValue => false,
            ErrorCode::Io(_) => true,
        }
    }
}

} // verus!
