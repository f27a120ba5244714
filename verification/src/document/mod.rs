//! The document model.

pub mod bindata;
pub mod bodytext;
pub mod chart_data;
pub mod docinfo;

use vstd::prelude::*;
use crate::number::{decimal, push_decimal};
use crate::text::{
    chars_of, join, joined, lemma_texts_push, push_range, string_of, texts_of, trim_bounds, trimmed,
};
use bodytext::{ParagraphModel, ParagraphRecordModel, SectionModel};

pub use bindata::{BinData, BinaryDataItem};
pub use bodytext::{
    BodyText, BreakKind, BreakMarker, CellParagraph, CellPart, Paragraph, ParagraphRecord, Section,
    Table, TableCell,
};
pub use docinfo::{BinDataRecord, DocInfo, DocumentProperties, FileHeader, PreviewText};

verus! {

/// A document: its file header, its document-wide information, its body,
/// its embedded files and its preview text, where it has one.
#[derive(Debug, Clone, PartialEq, Eq)]
pub struct HwpDocument {
    pub file_header: FileHeader,
    pub doc_info: DocInfo,
    pub body_text: BodyText,
    pub bin_data: BinData,
    pub preview_text: Option<PreviewText>,
}

impl HwpDocument {
    /// A document with the given file header and nothing else.
    pub fn new(file_header: FileHeader) -> (document: Self)
        ensures
            document.file_header == file_header,
            document.doc_info.document_properties is None,
            document.doc_info.bin_data@.len() == 0,
            document.body_text.sections@.len() == 0,
            document.bin_data.items@.len() == 0,
            document.preview_text is None,
    {
        HwpDocument {
            file_header,
            doc_info: DocInfo::default(),
            body_text: BodyText { sections: Vec::new() },
            bin_data: BinData { items: Vec::new() },
            preview_text: None,
        }
    }
}

/// A version number as text: its four bytes, the highest first, in
/// decimal digits with a dot between each two.
pub open spec fn version_text(version: u32) -> Seq<char> {
    decimal((version / 0x100_0000) as nat) + seq!['.'] + decimal((version / 0x1_0000 % 0x100) as nat)
        + seq!['.'] + decimal((version / 0x100 % 0x100) as nat) + seq!['.'] + decimal(
        (version % 0x100) as nat,
    )
}

/// Writes a version number as text, as in `5.1.0.0`.
pub fn format_version(version: u32) -> (text: String)
    ensures
        text@ == version_text(version),
{
    let mut out: Vec<char> = Vec::new();
    push_decimal(&mut out, (version / 0x100_0000) as u64);
    out.push('.');
    push_decimal(&mut out, (version / 0x1_0000 % 0x100) as u64);
    out.push('.');
    push_decimal(&mut out, (version / 0x100 % 0x100) as u64);
    out.push('.');
    push_decimal(&mut out, (version % 0x100) as u64);
    string_of(&out)
}

/// The texts of the first `n` records of a paragraph, each without the
/// white space around it, and without those that are blank.
pub open spec fn record_texts(records: Seq<ParagraphRecordModel>, n: int) -> Seq<Seq<char>>
    decreases n,
{
    if n <= 0 {
        Seq::empty()
    } else {
        let before = record_texts(records, n - 1);
        match records[n - 1] {
            ParagraphRecordModel::TextRun { text, markers } => if trimmed(text).len() > 0 {
                before.push(trimmed(text))
            } else {
                before
            },
            _ => before,
        }
    }
}

/// The texts of the first `n` paragraphs.
pub open spec fn paragraph_texts(paragraphs: Seq<ParagraphModel>, n: int) -> Seq<Seq<char>>
    decreases n,
{
    if n <= 0 {
        Seq::empty()
    } else {
        paragraph_texts(paragraphs, n - 1) + record_texts(
            paragraphs[n - 1].records,
            paragraphs[n - 1].records.len() as int,
        )
    }
}

/// The texts of the first `n` sections.
pub open spec fn section_texts(sections: Seq<SectionModel>, n: int) -> Seq<Seq<char>>
    decreases n,
{
    if n <= 0 {
        Seq::empty()
    } else {
        section_texts(sections, n - 1) + paragraph_texts(
            sections[n - 1].paragraphs,
            sections[n - 1].paragraphs.len() as int,
        )
    }
}

/// The plain text of a document: the texts of its paragraphs, each
/// without the white space around it, one to a line. Tables and images
/// have no part in it.
pub fn get_text(document: &HwpDocument) -> (text: String)
    ensures
        text@ == joined(
            section_texts(
                document.body_text.sections.deep_view(),
                document.body_text.sections@.len() as int,
            ),
            "\n"@,
        ),
{
    let sections = &document.body_text.sections;
    let ghost all = sections.deep_view();
    let mut parts: Vec<Vec<char>> = Vec::new();
    let mut s: usize = 0;
    while s < sections.len()
        invariant
            s <= sections.len(),
            all == sections.deep_view(),
            texts_of(parts@) == section_texts(all, s as int),
        decreases sections.len() - s,
    {
        let section = &sections[s];
        let ghost paragraphs = all[s as int].paragraphs;
        let ghost done_sections = texts_of(parts@);
        let mut p: usize = 0;
        while p < section.paragraphs.len()
            invariant
                p <= section.paragraphs.len(),
                paragraphs == section@.paragraphs,
                texts_of(parts@) == done_sections + paragraph_texts(paragraphs, p as int),
            decreases section.paragraphs.len() - p,
        {
            let paragraph = &section.paragraphs[p];
            let ghost records = paragraphs[p as int].records;
            let ghost done = texts_of(parts@);
            let mut r: usize = 0;
            while r < paragraph.records.len()
                invariant
                    r <= paragraph.records.len(),
                    records == paragraph@.records,
                    texts_of(parts@) == done + record_texts(records, r as int),
                decreases paragraph.records.len() - r,
            {
                match &paragraph.records[r] {
                    ParagraphRecord::TextRun { text, markers } => {
                        let chars = chars_of(text.as_str());
                        let (from, to) = trim_bounds(&chars);
                        if from < to {
                            let mut kept: Vec<char> = Vec::new();
                            push_range(&mut kept, &chars, from, to);
                            proof {
                                lemma_texts_push(parts@, kept);
                            }
                            parts.push(kept);
                        }
                    },
                    _ => {},
                }
                r += 1;
            }
            p += 1;
        }
        s += 1;
    }
    let text = join(&parts, "\n");
    string_of(&text)
}

} // verus!
