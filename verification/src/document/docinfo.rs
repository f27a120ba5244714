//! What a document says of itself as a whole.

use vstd::prelude::*;

verus! {

/// The numbers that the document starts counting with.
#[derive(Debug, Clone, PartialEq, Eq)]
pub struct DocumentProperties {
    pub area_count: u16,
    pub start_number_info: u16,
    pub page_start_number: u16,
    pub footnote_start_number: u16,
    pub endnote_start_number: u16,
    pub image_start_number: u16,
    pub table_start_number: u16,
    pub formula_start_number: u16,
    pub list_id: u32,
    pub paragraph_id: u32,
    pub character_position: u32,
}

/// The properties of a document that declares none: one area, every
/// count starting at 1.
pub open spec fn default_properties() -> DocumentProperties {
    DocumentProperties {
        area_count: 1,
        start_number_info: 0,
        page_start_number: 1,
        footnote_start_number: 1,
        endnote_start_number: 1,
        image_start_number: 1,
        table_start_number: 1,
        formula_start_number: 1,
        list_id: 0,
        paragraph_id: 0,
        character_position: 0,
    }
}

/// What the document records of one piece of binary data.
#[derive(Debug, Clone, PartialEq, Eq)]
pub enum BinDataRecord {
    /// A file outside the document.
    Link { path: String },
    /// A file embedded in the document, with the extension of its name.
    Embedding { binary_data_id: u16, extension: String },
    /// An embedded object store.
    Storage { binary_data_id: u16 },
}

/// What a `BinDataRecord` holds, as contracts see it.
pub enum BinDataRecordModel {
    Link { path: Seq<char> },
    Embedding { binary_data_id: u16, extension: Seq<char> },
    Storage { binary_data_id: u16 },
}

impl View for BinDataRecord {
    type V = BinDataRecordModel;

    open spec fn view(&self) -> BinDataRecordModel {
        match self {
            BinDataRecord::Link { path } => BinDataRecordModel::Link { path: path@ },
            BinDataRecord::Embedding { binary_data_id, extension } => BinDataRecordModel::Embedding {
                binary_data_id: *binary_data_id,
                extension: extension@,
            },
            BinDataRecord::Storage { binary_data_id } => BinDataRecordModel::Storage {
                binary_data_id: *binary_data_id,
            },
        }
    }
}

impl DeepView for BinDataRecord {
    type V = BinDataRecordModel;

    open spec fn deep_view(&self) -> BinDataRecordModel {
        self@
    }
}

/// The document-wide information.
#[derive(Debug, Clone, PartialEq, Eq)]
pub struct DocInfo {
    pub document_properties: Option<DocumentProperties>,
    pub bin_data: Vec<BinDataRecord>,
}

impl Default for DocInfo {
    fn default() -> (info: Self)
        ensures
            info.document_properties is None,
            info.bin_data@.len() == 0,
    {
        DocInfo { document_properties: None, bin_data: Vec::new() }
    }
}

/// The header of a document file.
#[derive(Debug, Clone, PartialEq, Eq)]
pub struct FileHeader {
    pub signature: String,
    pub version: u32,
    pub document_flags: u32,
    pub license_flags: u32,
    pub encrypt_version: u32,
    pub kogl_country: u8,
    pub reserved: Vec<u8>,
}

/// The text that stands for the document in a preview.
#[derive(Debug, Clone, PartialEq, Eq)]
pub struct PreviewText {
    pub text: String,
}

} // verus!
