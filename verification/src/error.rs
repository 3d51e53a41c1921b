//! The error taxonomy of the metadata engine.
//!
//! Every structural fault that parsing can hit is one variant, so that
//! contracts can state exactly which fault an input produces.

use vstd::prelude::*;

verus! {

/// A structural fault found while parsing a metadata stream.
#[derive(Debug, Clone, Copy, PartialEq, Eq, Structural, Hash)]
pub enum Error {
    /// The buffer is too short to hold the fixed TIFF header.
    TruncatedHeader,
    /// The first two bytes are neither of the two byte-order markers.
    InvalidByteOrder,
    /// The 16-bit magic value after the byte-order marker is not 42.
    InvalidFortyTwo,
    /// The top-level directory chain reached the fixed cap of 8.
    IfdCountLimit,
    /// Too few bytes remain to read a directory's 16-bit entry count.
    TruncatedIfdCount,
    /// Too few bytes remain to read a declared 12-byte entry.
    TruncatedIfd,
    /// Too few bytes remain to read the 4-byte next-directory offset.
    TruncatedNextOffset,
    /// The unit width times the element count overflows the address space.
    InvalidEntryCount,
    /// A value offset plus its computed length exceeds the buffer.
    TruncatedFieldValue,
    /// A sub-directory pointer's value is not a single unsigned integer.
    InvalidPointer,
    /// A sub-directory reported a non-zero next-directory offset.
    UnexpectedNextIfd,
    /// The stream does not begin with the 8-byte PNG signature.
    NotPng,
    /// The PNG stream ended inside a signature or chunk header.
    BrokenPng,
    /// A PNG chunk length plus its checksum overflows the address space.
    InvalidChunkLength,
    /// The PNG stream is well formed but holds no Exif chunk.
    ExifNotFound,
    /// A date-time field holds only blanks.
    BlankDateTime,
    /// A date-time field is shorter than the fixed layout.
    DateTimeTooShort,
    /// A date-time field has a wrong separator character.
    InvalidDateTimeDelimiter,
    /// An offset-time field holds only blanks.
    BlankOffsetTime,
    /// An offset-time field is shorter than the fixed layout.
    OffsetTimeTooShort,
    /// An offset-time field has a wrong separator character.
    InvalidOffsetTimeDelimiter,
    /// An offset-time field starts with neither `+` nor `-`.
    InvalidOffsetTimeSign,
    /// A decimal field holds a byte that is not an ASCII digit.
    NotANumber,
}

impl Error {
    /// The human-readable message of this fault.
    pub fn message(&self) -> (r: &'static str)
        ensures
            r@ == self.spec_message(),
    {
        match self {
            Error::TruncatedHeader => "Truncated TIFF header",
            Error::InvalidByteOrder => "Invalid TIFF byte order",
            Error::InvalidFortyTwo => "Invalid forty two",
            Error::IfdCountLimit => "Limit the IFD count to 8",
            Error::TruncatedIfdCount => "Truncated IFD count",
            Error::TruncatedIfd => "Truncated IFD",
            Error::TruncatedNextOffset => "Truncated next IFD offset",
            Error::InvalidEntryCount => "Invalid entry count",
            Error::TruncatedFieldValue => "Truncated field value",
            Error::InvalidPointer => "Invalid pointer",
            Error::UnexpectedNextIfd => "Unexpected next IFD",
            Error::NotPng => "Not a PNG file",
            Error::BrokenPng => "Broken PNG file",
            Error::InvalidChunkLength => "Invalid chunk length",
            Error::ExifNotFound => "No Exif data found in PNG",
            Error::BlankDateTime => "DateTime is blank",
            Error::DateTimeTooShort => "DateTime too short",
            Error::InvalidDateTimeDelimiter => "Invalid DateTime delimiter",
            Error::BlankOffsetTime => "OffsetTime is blank",
            Error::OffsetTimeTooShort => "OffsetTime too short",
            Error::InvalidOffsetTimeDelimiter => "Invalid OffsetTime delimiter",
            Error::InvalidOffsetTimeSign => "Invalid OffsetTime sign",
            Error::NotANumber => "Not a number",
        }
    }

    /// What `message` returns, variant by variant.
    pub open spec fn spec_message(&self) -> Seq<char> {
        match self {
            Error::TruncatedHeader => "Truncated TIFF header"@,
            Error::InvalidByteOrder => "Invalid TIFF byte order"@,
            Error::InvalidFortyTwo => "Invalid forty two"@,
            Error::IfdCountLimit => "Limit the IFD count to 8"@,
            Error::TruncatedIfdCount => "Truncated IFD count"@,
            Error::TruncatedIfd => "Truncated IFD"@,
            Error::TruncatedNextOffset => "Truncated next IFD offset"@,
            Error::InvalidEntryCount => "Invalid entry count"@,
            Error::TruncatedFieldValue => "Truncated field value"@,
            Error::InvalidPointer => "Invalid pointer"@,
            Error::UnexpectedNextIfd => "Unexpected next IFD"@,
            Error::NotPng => "Not a PNG file"@,
            Error::BrokenPng => "Broken PNG file"@,
            Error::InvalidChunkLength => "Invalid chunk length"@,
            Error::ExifNotFound => "No Exif data found in PNG"@,
            Error::BlankDateTime => "DateTime is blank"@,
            Error::DateTimeTooShort => "DateTime too short"@,
            Error::InvalidDateTimeDelimiter => "Invalid DateTime delimiter"@,
            Error::BlankOffsetTime => "OffsetTime is blank"@,
            Error::OffsetTimeTooShort => "OffsetTime too short"@,
            Error::InvalidOffsetTimeSign => "Invalid OffsetTime sign"@,
            Error::InvalidOffsetTimeDelimiter => "Invalid OffsetTime delimiter"@,
            Error::NotANumber => "Not a number"@,
        }
    }
}

} // verus!
