//! The errors that reading a document can end in.

use vstd::prelude::*;

verus! {

/// Why a document could not be read. Each variant carries a text for the
/// reader of the error.
#[derive(Debug, Clone, PartialEq, Eq)]
pub enum HwpError {
    /// The bytes are no ZIP archive.
    ZipParseError(String),
    /// The archive is not built as a document is.
    InvalidHwpxStructure { reason: String },
    /// The archive has no readable part of that name.
    HwpxFileNotFound { path: String },
    /// A part of the archive could not be unpacked.
    Io(String),
    /// A part that should be text is no UTF-8.
    EncodingError { reason: String },
    /// A part that should be XML is none.
    XmlParseError(String),
    /// Data inside the document is damaged.
    InternalError { message: String },
}

/// The kinds of error, without their texts.
#[derive(Debug, Clone, Copy, PartialEq, Eq, Structural)]
pub enum ErrorKind {
    ZipParse,
    InvalidStructure,
    FileNotFound,
    Io,
    Encoding,
    XmlParse,
    Internal,
}

impl HwpError {
    /// The kind of the error.
    pub open spec fn spec_kind(&self) -> ErrorKind {
        match *self {
            HwpError::ZipParseError(_) => ErrorKind::ZipParse,
            HwpError::InvalidHwpxStructure { .. } => ErrorKind::InvalidStructure,
            HwpError::HwpxFileNotFound { .. } => ErrorKind::FileNotFound,
            HwpError::Io(_) => ErrorKind::Io,
            HwpError::EncodingError { .. } => ErrorKind::Encoding,
            HwpError::XmlParseError(_) => ErrorKind::XmlParse,
            HwpError::InternalError { .. } => ErrorKind::Internal,
        }
    }

    /// The kind of the error.
    #[verifier::when_used_as_spec(spec_kind)]
    pub fn kind(&self) -> (kind: ErrorKind)
        ensures
            kind == self.spec_kind(),
    {
        match self {
            HwpError::ZipParseError(_) => ErrorKind::ZipParse,
            HwpError::InvalidHwpxStructure { .. } => ErrorKind::InvalidStructure,
            HwpError::HwpxFileNotFound { .. } => ErrorKind::FileNotFound,
            HwpError::Io(_) => ErrorKind::Io,
            HwpError::EncodingError { .. } => ErrorKind::Encoding,
            HwpError::XmlParseError(_) => ErrorKind::XmlParse,
            HwpError::InternalError { .. } => ErrorKind::Internal,
        }
    }

    /// The text that the error carries.
    pub fn message(&self) -> (text: &String)
        ensures
            *text == match *self {
                HwpError::ZipParseError(m) => m,
                HwpError::InvalidHwpxStructure { reason } => reason,
                HwpError::HwpxFileNotFound { path } => path,
                HwpError::Io(m) => m,
                HwpError::EncodingError { reason } => reason,
                HwpError::XmlParseError(m) => m,
                HwpError::InternalError { message } => message,
            },
    {
        match self {
            HwpError::ZipParseError(m) => m,
            HwpError::InvalidHwpxStructure { reason } => reason,
            HwpError::HwpxFileNotFound { path } => path,
            HwpError::Io(m) => m,
            HwpError::EncodingError { reason } => reason,
            HwpError::XmlParseError(m) => m,
            HwpError::InternalError { message } => message,
        }
    }
}

} // verus!
