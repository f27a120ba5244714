//! Rendering as Markdown, with HTML where Markdown cannot say it.

pub mod common;
pub mod grid;
pub mod table;

use vstd::prelude::*;
use crate::document::bodytext::{
    Paragraph, ParagraphModel, ParagraphRecord, ParagraphRecordModel, SectionModel,
};
use crate::document::HwpDocument;
use crate::text::{chars_of, join, joined, lemma_texts_push, push_range, push_str, string_of, texts_of};
use crate::viewer::segmenter::{break_token, segment_chars, segmented};
use common::convert_hwpx_image_to_markdown;
use table::{convert_table_to_markdown, image_text, table_text};

verus! {

/// What the caller asks of the rendering.
#[derive(Debug, Clone, PartialEq, Eq)]
pub struct MarkdownOptions {
    /// The directory that the caller writes the images to. With one, an
    /// image is rendered as a link to its file; without one, as a data URI.
    pub image_output_dir: Option<String>,
    /// Render breaks and tables as HTML.
    pub use_html: Option<bool>,
    /// Render the version of the document.
    pub include_version: Option<bool>,
    /// Render the page information of the document.
    pub include_page_info: Option<bool>,
    /// The images, by their place among the embedded files, that the caller
    /// could not write to `image_output_dir`. They are rendered as data
    /// URIs.
    pub failed_images: Vec<u16>,
}

impl MarkdownOptions {
    /// The caller asks for HTML.
    pub open spec fn html(&self) -> bool {
        self.use_html == Some(true)
    }

    /// Whether the caller asks for HTML.
    pub fn wants_html(&self) -> (html: bool)
        ensures
            html == self.html(),
    {
        match self.use_html {
            Some(html) => html,
            None => false,
        }
    }

    /// The image `bindata_id` is rendered as a link to its file.
    pub open spec fn links(&self, bindata_id: u16) -> bool {
        self.image_output_dir is Some && !self.failed_images@.contains(bindata_id)
    }

    /// Whether the image `bindata_id` is rendered as a link to its file.
    pub fn links_image(&self, bindata_id: u16) -> (linked: bool)
        ensures
            linked == self.links(bindata_id),
    {
        if self.image_output_dir.is_none() {
            return false;
        }
        let mut i: usize = 0;
        while i < self.failed_images.len()
            invariant
                i <= self.failed_images.len(),
                forall|k: int| 0 <= k < i ==> self.failed_images@[k] != bindata_id,
            decreases self.failed_images.len() - i,
        {
            if self.failed_images[i] == bindata_id {
                return false;
            }
            i += 1;
        }
        true
    }
}

/// The Markdown of one record: a text with the break token at its
/// breaks; a table as `table_text` says; an image as an image link, and
/// nothing for an image that the document does not hold.
pub open spec fn record_markdown(
    record: ParagraphRecordModel,
    document: &HwpDocument,
    options: &MarkdownOptions,
) -> Seq<char> {
    match record {
        ParagraphRecordModel::TextRun { text, markers } => segmented(
            text,
            markers,
            break_token(options.html()),
        ),
        ParagraphRecordModel::Table { table } => table_text(table, document, options),
        ParagraphRecordModel::ImageRef { identifier } => match image_text(
            document,
            options,
            identifier,
        ) {
            Some(markdown) => markdown,
            None => Seq::empty(),
        },
    }
}

/// The Markdown of the first `n` records of a paragraph, one behind the
/// other.
pub open spec fn records_markdown(
    records: Seq<ParagraphRecordModel>,
    n: int,
    document: &HwpDocument,
    options: &MarkdownOptions,
) -> Seq<char>
    decreases n,
{
    if n <= 0 {
        Seq::empty()
    } else {
        records_markdown(records, n - 1, document, options) + record_markdown(
            records[n - 1],
            document,
            options,
        )
    }
}

/// The Markdown of the first `n` paragraphs, one block each.
pub open spec fn paragraph_blocks(
    paragraphs: Seq<ParagraphModel>,
    n: int,
    document: &HwpDocument,
    options: &MarkdownOptions,
) -> Seq<Seq<char>>
    decreases n,
{
    if n <= 0 {
        Seq::empty()
    } else {
        paragraph_blocks(paragraphs, n - 1, document, options).push(
            records_markdown(
                paragraphs[n - 1].records,
                paragraphs[n - 1].records.len() as int,
                document,
                options,
            ),
        )
    }
}

/// The Markdown of the first `n` sections, one block for each paragraph.
pub open spec fn section_blocks(
    sections: Seq<SectionModel>,
    n: int,
    document: &HwpDocument,
    options: &MarkdownOptions,
) -> Seq<Seq<char>>
    decreases n,
{
    if n <= 0 {
        Seq::empty()
    } else {
        section_blocks(sections, n - 1, document, options) + paragraph_blocks(
            sections[n - 1].paragraphs,
            sections[n - 1].paragraphs.len() as int,
            document,
            options,
        )
    }
}

/// The Markdown of a document: the blocks of its paragraphs, in the order
/// of the document, with an empty line between each two.
pub open spec fn document_markdown(document: &HwpDocument, options: &MarkdownOptions) -> Seq<char> {
    joined(
        section_blocks(
            document.body_text.sections.deep_view(),
            document.body_text.sections@.len() as int,
            document,
            options,
        ),
        "\n\n"@,
    )
}

/// Renders one paragraph as Markdown.
pub fn paragraph_to_markdown(
    paragraph: &Paragraph,
    document: &HwpDocument,
    options: &MarkdownOptions,
) -> (block: Vec<char>)
    ensures
        block@ == records_markdown(
            paragraph@.records,
            paragraph@.records.len() as int,
            document,
            options,
        ),
{
    let ghost records = paragraph@.records;
    let html = options.wants_html();
    let mut block: Vec<char> = Vec::new();
    let mut r: usize = 0;
    while r < paragraph.records.len()
        invariant
            r <= paragraph.records.len(),
            records == paragraph@.records,
            html == options.html(),
            block@ == records_markdown(records, r as int, document, options),
        decreases paragraph.records.len() - r,
    {
        match &paragraph.records[r] {
            ParagraphRecord::TextRun { text, markers } => {
                let chars = chars_of(text.as_str());
                let segments = segment_chars(&chars, markers, html);
                push_range(&mut block, &segments, 0, segments.len());
            },
            ParagraphRecord::Table { table } => {
                let text = convert_table_to_markdown(table, document, options);
                push_str(&mut block, text.as_str());
            },
            ParagraphRecord::ImageRef { identifier } => {
                match convert_hwpx_image_to_markdown(identifier.as_str(), document, options) {
                    Some(markdown) => {
                        push_str(&mut block, markdown.as_str());
                    },
                    None => {
                    },
                }
            },
        }
        r += 1;
    }
    block
}

/// Renders a document as Markdown. Paragraphs, rows and cells come out in
/// the order of the document.
pub fn to_markdown(document: &HwpDocument, options: &MarkdownOptions) -> (markdown: String)
    ensures
        markdown@ == document_markdown(document, options),
{
    let sections = &document.body_text.sections;
    let ghost all = sections.deep_view();
    let mut blocks: Vec<Vec<char>> = Vec::new();
    let mut s: usize = 0;
    while s < sections.len()
        invariant
            s <= sections.len(),
            all == sections.deep_view(),
            texts_of(blocks@) == section_blocks(all, s as int, document, options),
        decreases sections.len() - s,
    {
        let section = &sections[s];
        let ghost paragraphs = all[s as int].paragraphs;
        let ghost done = texts_of(blocks@);
        let mut p: usize = 0;
        while p < section.paragraphs.len()
            invariant
                p <= section.paragraphs.len(),
                paragraphs == section@.paragraphs,
                texts_of(blocks@) == done + paragraph_blocks(
                    paragraphs,
                    p as int,
                    document,
                    options,
                ),
            decreases section.paragraphs.len() - p,
        {
            let block = paragraph_to_markdown(&section.paragraphs[p], document, options);
            proof {
                lemma_texts_push(blocks@, block);
            }
            blocks.push(block);
            p += 1;
        }
        s += 1;
    }
    let text = join(&blocks, "\n\n");
    string_of(&text)
}

} // verus!
