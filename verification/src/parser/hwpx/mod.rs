//! Reading of HWPX documents: ZIP archives of XML parts.
//!
//! An HWPX file is a ZIP archive. The file `mimetype` names its type;
//! `version.xml` its version; `Contents/header.xml` holds the document-wide
//! information; `Contents/section0.xml`, `Contents/section1.xml` and so on
//! hold the body; `BinData/` holds images and other embedded files;
//! `Preview/PrvText.txt` holds a preview of the text.

pub mod bindata;
pub mod container;
pub mod event;
pub mod header;
pub mod section;
pub mod xml;

use vstd::prelude::*;
use crate::document::bodytext::SectionModel;
use crate::document::docinfo::{default_properties, PreviewText};
use crate::document::HwpDocument;
use crate::error::{ErrorKind, HwpError};
use bindata::bindata_of;
use container::{accepted_mimetype, text_of, zip_entry, zip_names, HwpxContainer, TextEntry};
use header::{events_of_entry, header_version, is_hwpx_header};
use section::sections_of;

verus! {

/// The preview text of the container `data`: the text of the file
/// `Preview/PrvText.txt`, where the container names that file and it can
/// be read as text.
pub open spec fn preview_of(data: Seq<u8>) -> Option<Seq<char>> {
    if zip_names(data)->0.contains("Preview/PrvText.txt"@) {
        match text_of(zip_entry(data, "Preview/PrvText.txt"@)) {
            TextEntry::Text(text) => Some(text),
            _ => None,
        }
    } else {
        None
    }
}

/// Why the bytes `data` are refused, if they are: they are no ZIP archive;
/// their file `mimetype` names another type; their header part or one of
/// their sections cannot be read; or they have no section.
pub open spec fn refusal(data: Seq<u8>) -> Option<ErrorKind> {
    if zip_names(data) is None {
        Some(ErrorKind::ZipParse)
    } else if !accepted_mimetype(zip_entry(data, "mimetype"@)) {
        Some(ErrorKind::InvalidStructure)
    } else {
        match events_of_entry(zip_entry(data, "Contents/header.xml"@)) {
            Err(kind) => Some(kind),
            Ok(_) => match sections_of(data, zip_names(data)->0) {
                Err(kind) => Some(kind),
                Ok(_) => None,
            },
        }
    }
}

/// `document` is the document that the bytes `data` hold.
pub open spec fn is_document_of(document: HwpDocument, data: Seq<u8>) -> bool {
    &&& is_hwpx_header(document.file_header, header_version(zip_entry(data, "version.xml"@)))
    &&& document.doc_info.document_properties == Some(default_properties())
    &&& document.doc_info.bin_data@.len() == 0
    &&& sections_of(data, zip_names(data)->0) == Ok::<Seq<SectionModel>, ErrorKind>(
        document.body_text.sections.deep_view(),
    )
    &&& document.bin_data@ == bindata_of(data, zip_names(data)->0)
    &&& match document.preview_text {
        Some(preview) => preview_of(data) == Some(preview.text@),
        None => preview_of(data) is None,
    }
}

/// Reads an HWPX document from the bytes of its file.
///
/// The bytes are refused exactly when `refusal` names a reason, and then
/// with an error of that kind. A refused file gives no part of a document.
pub fn parse(data: &[u8]) -> (result: Result<HwpDocument, HwpError>)
    ensures
        match result {
            Ok(document) => refusal(data@) is None && is_document_of(document, data@),
            Err(error) => refusal(data@) == Some(error.kind()),
        },
{
    let mut container = match HwpxContainer::open(data) {
        Ok(container) => container,
        Err(error) => {
            return Err(error);
        },
    };
    match container.verify_mimetype() {
        Ok(_) => {},
        Err(error) => {
            return Err(error);
        },
    }
    let file_header = match header::parse_file_header(&mut container) {
        Ok(file_header) => file_header,
        Err(error) => {
            return Err(error);
        },
    };
    let mut document = HwpDocument::new(file_header);
    document.doc_info = match header::parse_doc_info(&mut container) {
        Ok(doc_info) => doc_info,
        Err(error) => {
            return Err(error);
        },
    };
    document.body_text = match section::parse_sections(&mut container) {
        Ok(body_text) => body_text,
        Err(error) => {
            return Err(error);
        },
    };
    document.bin_data = match bindata::parse_bindata(&mut container) {
        Ok(bin_data) => bin_data,
        Err(error) => {
            return Err(error);
        },
    };
    if container.file_exists("Preview/PrvText.txt") {
        match container.read_file_string("Preview/PrvText.txt") {
            Ok(text) => {
                document.preview_text = Some(PreviewText { text });
            },
            Err(_) => {},
        }
    }
    Ok(document)
}

} // verus!
