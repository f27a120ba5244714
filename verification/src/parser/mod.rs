//! Format detection and parsing of document files.

pub mod detect;
pub mod hwpx;

use vstd::prelude::*;
use crate::document::HwpDocument;
use crate::error::{ErrorKind, HwpError};

pub use detect::{detect_format, FileFormat};

verus! {

/// A reader of documents from the bytes of their files.
#[derive(Debug, Clone, Copy, Default)]
pub struct HwpParser;

impl HwpParser {
    /// A reader of documents.
    pub fn new() -> (parser: Self) {
        HwpParser
    }

    /// Reads a document from the bytes of its file.
    ///
    /// Bytes that begin as a ZIP archive are read as an HWPX document, and
    /// refused when `hwpx::parse` refuses them. Any other bytes are
    /// refused with an `InternalError`: this library reads no other format.
    pub fn parse(&self, data: &[u8]) -> (result: Result<HwpDocument, HwpError>)
        ensures
            match result {
                Ok(document) => detect::format_of(data@) == FileFormat::Hwpx && hwpx::refusal(
                    data@,
                ) is None && hwpx::is_document_of(document, data@),
                Err(error) => if detect::format_of(data@) == FileFormat::Hwpx {
                    hwpx::refusal(data@) == Some(error.kind())
                } else {
                    error.kind() == ErrorKind::Internal
                },
            },
    {
        match detect_format(data) {
            FileFormat::Hwpx => hwpx::parse(data),
            FileFormat::Hwp5 => Err(
                HwpError::InternalError { message: "HWP 5.0 files cannot be read".to_owned() },
            ),
            FileFormat::Unknown => Err(
                HwpError::InternalError { message: "Unknown file format".to_owned() },
            ),
        }
    }
}

} // verus!
