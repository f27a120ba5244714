//! Rendering as HTML: a whole page, with each paragraph of text in a `p`
//! element, each table as an HTML table and each image as an `img`
//! element.

pub mod image;

use vstd::prelude::*;
use crate::document::bodytext::{
    Paragraph, ParagraphModel, ParagraphRecord, ParagraphRecordModel, SectionModel,
};
use crate::document::HwpDocument;
use crate::text::{chars_of, push_range, push_str, replace, replaced, string_of};
use crate::viewer::markdown::common::{
    find_referenced_item, image_address, image_url, referenced_item,
};
use crate::viewer::markdown::table::{convert_table_to_html, html_rows_of, html_table};
use crate::viewer::markdown::MarkdownOptions;
use crate::viewer::segmenter::{segment_with, segmented};

verus! {

/// `text` with the three characters that HTML reads as markup written as
/// entities.
pub open spec fn escaped(text: Seq<char>) -> Seq<char> {
    replaced(replaced(replaced(text, '&', "&amp;"@), '<', "&lt;"@), '>', "&gt;"@)
}

/// The HTML of a text with break markers: the text with its markup
/// characters as entities, and a line break at every break and every line
/// separator.
pub open spec fn text_html(text: Seq<char>, markers: Seq<crate::document::BreakMarker>) -> Seq<
    char,
> {
    replaced(escaped(segmented(text, markers, seq!['\n'])), '\n', "<br>"@)
}

/// The HTML of one record: a text in a `p` element; a table as an HTML
/// table; an image as an `img` element, and nothing for an image that the
/// document does not hold.
pub open spec fn record_html(
    record: ParagraphRecordModel,
    document: &HwpDocument,
    options: &MarkdownOptions,
) -> Seq<char> {
    match record {
        ParagraphRecordModel::TextRun { text, markers } => "<p>"@ + text_html(text, markers)
            + "</p>\n"@,
        ParagraphRecordModel::Table { table } => html_table(
            html_rows_of(table, document, options),
        ),
        ParagraphRecordModel::ImageRef { identifier } => match referenced_item(
            document.bin_data@,
            identifier,
        ) {
            Some(item) => "<img src=\""@ + image_address(
                document.doc_info.bin_data.deep_view(),
                item.index,
                item.data,
                options.links(item.index),
            ) + "\">\n"@,
            None => Seq::empty(),
        },
    }
}

/// The HTML of the first `n` records of a paragraph.
pub open spec fn records_html(
    records: Seq<ParagraphRecordModel>,
    n: int,
    document: &HwpDocument,
    options: &MarkdownOptions,
) -> Seq<char>
    decreases n,
{
    if n <= 0 {
        Seq::empty()
    } else {
        records_html(records, n - 1, document, options) + record_html(
            records[n - 1],
            document,
            options,
        )
    }
}

/// The HTML of the first `n` paragraphs.
pub open spec fn paragraphs_html(
    paragraphs: Seq<ParagraphModel>,
    n: int,
    document: &HwpDocument,
    options: &MarkdownOptions,
) -> Seq<char>
    decreases n,
{
    if n <= 0 {
        Seq::empty()
    } else {
        paragraphs_html(paragraphs, n - 1, document, options) + records_html(
            paragraphs[n - 1].records,
            paragraphs[n - 1].records.len() as int,
            document,
            options,
        )
    }
}

/// The HTML of the first `n` sections.
pub open spec fn sections_html(
    sections: Seq<SectionModel>,
    n: int,
    document: &HwpDocument,
    options: &MarkdownOptions,
) -> Seq<char>
    decreases n,
{
    if n <= 0 {
        Seq::empty()
    } else {
        sections_html(sections, n - 1, document, options) + paragraphs_html(
            sections[n - 1].paragraphs,
            sections[n - 1].paragraphs.len() as int,
            document,
            options,
        )
    }
}

/// The HTML page of a document.
pub open spec fn document_html(document: &HwpDocument, options: &MarkdownOptions) -> Seq<char> {
    "<!DOCTYPE html>\n<html>\n<head>\n<meta charset=\"UTF-8\">\n</head>\n<body>\n"@ + sections_html(
        document.body_text.sections.deep_view(),
        document.body_text.sections@.len() as int,
        document,
        options,
    ) + "</body>\n</html>\n"@
}

/// Appends the HTML of a text with break markers.
fn push_text_html(out: &mut Vec<char>, text: &str, markers: &Vec<crate::document::BreakMarker>)
    ensures
        final(out)@ == old(out)@ + text_html(text@, markers@),
{
    let chars = chars_of(text);
    let mut token: Vec<char> = Vec::new();
    token.push('\n');
    let segments = segment_with(&chars, markers, &token);
    let first = replace(&segments, '&', "&amp;");
    let second = replace(&first, '<', "&lt;");
    let third = replace(&second, '>', "&gt;");
    let broken = replace(&third, '\n', "<br>");
    push_range(out, &broken, 0, broken.len());
}

/// Appends the HTML of one paragraph.
fn push_paragraph_html(
    out: &mut Vec<char>,
    paragraph: &Paragraph,
    document: &HwpDocument,
    options: &MarkdownOptions,
)
    ensures
        final(out)@ == old(out)@ + records_html(
            paragraph@.records,
            paragraph@.records.len() as int,
            document,
            options,
        ),
{
    let ghost records = paragraph@.records;
    let mut block: Vec<char> = Vec::new();
    let mut r: usize = 0;
    while r < paragraph.records.len()
        invariant
            r <= paragraph.records.len(),
            records == paragraph@.records,
            block@ == records_html(records, r as int, document, options),
        decreases paragraph.records.len() - r,
    {
        let mut piece: Vec<char> = Vec::new();
        match &paragraph.records[r] {
            ParagraphRecord::TextRun { text, markers } => {
                push_str(&mut piece, "<p>");
                push_text_html(&mut piece, text.as_str(), markers);
                push_str(&mut piece, "</p>\n");
            },
            ParagraphRecord::Table { table } => {
                let text = convert_table_to_html(table, document, options);
                push_str(&mut piece, text.as_str());
            },
            ParagraphRecord::ImageRef { identifier } => {
                match find_referenced_item(document, identifier.as_str()) {
                    Some(item) => {
                        push_str(&mut piece, "<img src=\"");
                        let linked = options.links_image(item.index);
                        let url = image_url(document, item.index, item.data.as_str(), linked);
                        push_str(&mut piece, url.as_str());
                        push_str(&mut piece, "\">\n");
                    },
                    None => {},
                }
            },
        }
        push_range(&mut block, &piece, 0, piece.len());
        r += 1;
    }
    push_range(out, &block, 0, block.len());
}

/// Renders a document as an HTML page. Paragraphs, rows and cells come
/// out in the order of the document.
pub fn to_html(document: &HwpDocument, options: &MarkdownOptions) -> (html: String)
    ensures
        html@ == document_html(document, options),
{
    let sections = &document.body_text.sections;
    let ghost all = sections.deep_view();
    let mut body: Vec<char> = Vec::new();
    let mut s: usize = 0;
    while s < sections.len()
        invariant
            s <= sections.len(),
            all == sections.deep_view(),
            body@ == sections_html(all, s as int, document, options),
        decreases sections.len() - s,
    {
        let section = &sections[s];
        let ghost paragraphs = all[s as int].paragraphs;
        let mut part: Vec<char> = Vec::new();
        let mut p: usize = 0;
        while p < section.paragraphs.len()
            invariant
                p <= section.paragraphs.len(),
                paragraphs == section@.paragraphs,
                part@ == paragraphs_html(paragraphs, p as int, document, options),
            decreases section.paragraphs.len() - p,
        {
            push_paragraph_html(&mut part, &section.paragraphs[p], document, options);
            p += 1;
        }
        push_range(&mut body, &part, 0, part.len());
        s += 1;
    }
    let mut out: Vec<char> = Vec::new();
    push_str(
        &mut out,
        "<!DOCTYPE html>\n<html>\n<head>\n<meta charset=\"UTF-8\">\n</head>\n<body>\n",
    );
    push_range(&mut out, &body, 0, body.len());
    push_str(&mut out, "</body>\n</html>\n");
    string_of(&out)
}

} // verus!
