//! The failure taxonomy of the codec.  Every condition is terminal at the
//! point of detection and is returned wrapped in the narrowest category.

use crate::record::PyExpr;
use vstd::prelude::*;

verus! {

/// A malformed header.
#[derive(Debug)]
pub enum ParseHeaderError {
    /// The input does not start with the magic marker.
    MagicString,
    /// Unknown major/minor version bytes.
    Version { major: u8, minor: u8 },
    /// The declared record length does not fit in `usize`.
    HeaderLengthOverflow(u32),
    /// The record text contains non-ASCII bytes, which the two legacy
    /// versions forbid.
    NonAscii,
    /// The record text of the newest version is not valid UTF-8.
    Utf8Parse,
    /// The record dictionary holds a key other than the three recognized ones.
    UnknownKey(PyExpr),
    /// One of the three recognized keys is absent.
    MissingKey(String),
    /// A recognized key maps to a value of the wrong shape or type.
    IllegalValue { key: String, value: PyExpr },
    /// The record text is not a well-formed Python literal.
    DictParse,
    /// The record is a literal other than a dictionary.
    MetaNotDict(PyExpr),
    /// The header block does not end with a newline byte.
    MissingNewline,
}

/// An error reading a header from a byte source.
#[derive(Debug)]
pub enum ReadHeaderError {
    /// The byte source ended before the header was complete.
    Io,
    /// The header bytes are present but malformed.
    Parse(ParseHeaderError),
}

/// An error formatting a header.
#[derive(Debug)]
pub enum FormatHeaderError {
    /// The descriptive record cannot be rendered as a Python literal.
    PyValue,
    /// The record is too long for every supported version's length field.
    HeaderTooLong,
}

/// An error writing array data.
#[derive(Debug)]
pub enum WriteDataError {
    /// The cumulative element count would exceed the declared total
    /// (declared total, attempted cumulative count).
    TooManyElements(usize, usize),
    /// The stream was closed before the declared total was reached
    /// (declared total, written count).
    TooFewElements(usize, usize),
}

/// An error writing a whole NPY file or stream.
#[derive(Debug)]
pub enum WriteNpyError {
    /// The header could not be formatted.
    FormatHeader(FormatHeaderError),
    /// The element-count contract of the stream was broken.
    WriteData(WriteDataError),
}

/// An error decoding array data.
#[derive(Debug)]
pub enum ReadDataError {
    /// The file's type descriptor does not denote the requested element type.
    WrongDescriptor(PyExpr),
    /// The payload ended before the declared element count was filled.
    MissingData,
    /// Bytes remain after the declared element count (how many).
    ExtraBytes(usize),
    /// A boolean element holds a byte other than 0 or 1 (the offending byte).
    ParseBoolError(u8),
}

/// An error reading a whole NPY file.
#[derive(Debug)]
pub enum ReadNpyError {
    /// The header could not be read.
    ReadHeader(ReadHeaderError),
    /// The element data could not be decoded.
    ReadData(ReadDataError),
    /// The element count computed from the shape overflows.
    LengthOverflow,
}

/// Renders the extra-byte count into the diagnostic text.
///
/// Relies on std's `format!` macro for the decimal rendering.
#[verifier::external_body]
fn fmt_extra_bytes(n: usize) -> String {
    format!("file had {} extra bytes before EOF", n)
}

/// Renders the offending byte of an invalid boolean into the diagnostic text.
///
/// Relies on std's `format!` macro for the hexadecimal rendering.
#[verifier::external_body]
fn fmt_bad_bool(b: u8) -> String {
    format!("cannot parse value {:#04x} as a bool", b)
}

impl ReadDataError {
    /// A short description of the failure, as a plain string.
    pub fn message(&self) -> String {
        match self {
            ReadDataError::WrongDescriptor(_) => ("incorrect descriptor for this type").to_owned(),
            ReadDataError::MissingData => ("reached EOF before reading all data").to_owned(),
            ReadDataError::ExtraBytes(n) => fmt_extra_bytes(*n),
            ReadDataError::ParseBoolError(b) => fmt_bad_bool(*b),
        }
    }
}

} // verus!
