//! The failures that encoding and decoding report.

use vstd::prelude::*;

verus! {

/// `std::str::Utf8Error`, carried through as an opaque value.
#[verifier::external_type_specification]
#[verifier::external_body]
pub struct ExUtf8Error(std::str::Utf8Error);

/// Why a byte source could not supply the bytes asked of it.
#[derive(Debug, Clone, Copy, PartialEq, Eq, Structural)]
pub enum IoErrorKind {
    /// The source ended before the requested bytes were read.
    UnexpectedEof,
    /// Any other failure of the underlying source. The in-memory source never reports it.
    Other,
}

/// The kind of a [`DeserError`], without its payload.
#[derive(Debug, Clone, Copy, PartialEq, Eq, Structural)]
pub enum ErrorKind {
    InvalidEnumVariant,
    InvalidUnit,
    InvalidOption,
    InvalidBool,
    UnknownLength,
    TrailingData,
    Encoding,
    Decoding,
    UnexpectedEof,
    Io,
    Utf8,
    Int,
}

/// A failure of encoding or of decoding.
#[derive(Debug)]
pub enum DeserError {
    /// A variant index that the schema does not know, for schema layers that report it by
    /// number.
    InvalidEnumVariant(u8),
    /// A unit byte other than 0.
    InvalidUnit,
    /// An option tag other than 0 or 1.
    InvalidOption,
    /// A boolean byte other than 0 or 1.
    InvalidBool,
    /// A sequence or map whose length is not known before its elements are written.
    UnknownLength,
    /// Bytes left over after the one value of a buffer was decoded.
    TrailingData,
    /// A failure that the schema layer raised while encoding.
    Encoding(String),
    /// A failure that the schema layer raised while decoding.
    Decoding(String),
    /// The byte source failed; end of input is reported here.
    Io(IoErrorKind),
    /// A string payload that is not UTF-8.
    Utf8(std::str::Utf8Error),
    /// A length or variant index outside the range of its wire counter.
    Int(std::num::TryFromIntError),
}

impl DeserError {
    /// The kind of this error.
    pub open spec fn spec_kind(&self) -> ErrorKind {
        match self {
            DeserError::InvalidEnumVariant(_) => ErrorKind::InvalidEnumVariant,
            DeserError::InvalidUnit => ErrorKind::InvalidUnit,
            DeserError::InvalidOption => ErrorKind::InvalidOption,
            DeserError::InvalidBool => ErrorKind::InvalidBool,
            DeserError::UnknownLength => ErrorKind::UnknownLength,
            DeserError::TrailingData => ErrorKind::TrailingData,
            DeserError::Encoding(_) => ErrorKind::Encoding,
            DeserError::Decoding(_) => ErrorKind::Decoding,
            DeserError::Io(IoErrorKind::UnexpectedEof) => ErrorKind::UnexpectedEof,
            DeserError::Io(IoErrorKind::Other) => ErrorKind::Io,
            DeserError::Utf8(_) => ErrorKind::Utf8,
            DeserError::Int(_) => ErrorKind::Int,
        }
    }

    #[verifier::when_used_as_spec(spec_kind)]
    pub fn kind(&self) -> (kind: ErrorKind)
        ensures
            kind == self.spec_kind(),
    {
        match self {
            DeserError::InvalidEnumVariant(_) => ErrorKind::InvalidEnumVariant,
            DeserError::InvalidUnit => ErrorKind::InvalidUnit,
            DeserError::InvalidOption => ErrorKind::InvalidOption,
            DeserError::InvalidBool => ErrorKind::InvalidBool,
            DeserError::UnknownLength => ErrorKind::UnknownLength,
            DeserError::TrailingData => ErrorKind::TrailingData,
            DeserError::Encoding(_) => ErrorKind::Encoding,
            DeserError::Decoding(_) => ErrorKind::Decoding,
            DeserError::Io(IoErrorKind::UnexpectedEof) => ErrorKind::UnexpectedEof,
            DeserError::Io(IoErrorKind::Other) => ErrorKind::Io,
            DeserError::Utf8(_) => ErrorKind::Utf8,
            DeserError::Int(_) => ErrorKind::Int,
        }
    }

    /// Whether this error is the end of input, which ends a stream of messages normally
    /// when it comes at a message boundary.
    pub fn is_end_of_input(&self) -> (eof: bool)
        ensures
            eof == (self.kind() == ErrorKind::UnexpectedEof),
    {
        match self {
            DeserError::Io(IoErrorKind::UnexpectedEof) => true,
            _ => false,
        }
    }
}

/// Whether `r` is a failure of the kind `kind`.
pub open spec fn fails_with<T>(r: Result<T, DeserError>, kind: ErrorKind) -> bool {
    r matches Err(e) && e.kind() == kind
}

} // verus!
