//! The binary data of a document: images and other embedded files.

use vstd::prelude::*;

verus! {

/// One embedded file: its place among the embedded files, its bytes in
/// base64, and the name that the document refers to it by, where it has one.
#[derive(Debug, Clone, PartialEq, Eq)]
pub struct BinaryDataItem {
    pub index: u16,
    pub data: String,
    pub name: Option<String>,
}

/// What a `BinaryDataItem` holds, as contracts see it.
pub struct BinaryDataItemModel {
    pub index: u16,
    pub data: Seq<char>,
    pub name: Option<Seq<char>>,
}

impl View for BinaryDataItem {
    type V = BinaryDataItemModel;

    open spec fn view(&self) -> BinaryDataItemModel {
        BinaryDataItemModel {
            index: self.index,
            data: self.data@,
            name: match self.name {
                Some(name) => Some(name@),
                None => None,
            },
        }
    }
}

impl DeepView for BinaryDataItem {
    type V = BinaryDataItemModel;

    open spec fn deep_view(&self) -> BinaryDataItemModel {
        self@
    }
}

/// The embedded files of a document, in the order of the archive.
#[derive(Debug, Clone, PartialEq, Eq)]
pub struct BinData {
    pub items: Vec<BinaryDataItem>,
}

impl View for BinData {
    type V = Seq<BinaryDataItemModel>;

    open spec fn view(&self) -> Seq<BinaryDataItemModel> {
        self.items.deep_view()
    }
}

} // verus!
