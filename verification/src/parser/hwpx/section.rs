//! Reading of one section: a single pass over its events that gathers
//! paragraphs, tables and image references.
//!
//! The pass keeps no stack. What it knows of the elements that stand open
//! is a count of nested paragraphs and four flags; what it has gathered and
//! not yet handed out sits in buffers. `step` says how one event changes
//! that state, `finish` what the end of the stream does to it.
//!
//! A paragraph that stands open at the top level, outside any table,
//! gathers its records: the images of its drawing containers, and its text
//! in the runs that the images cut it into. A table is handed out as a
//! paragraph of its own when it closes, and so is an image that no such
//! paragraph can take.

use vstd::prelude::*;
use crate::document::bodytext::{
    lemma_deep_view_push, span_of, BreakMarker, CellParagraph, CellParagraphModel, CellPart, CellPartModel,
    Paragraph, ParagraphModel, ParagraphRecord, ParagraphRecordModel, Section, SectionModel, Table,
    TableCell, TableCellModel, TableModel,
};
use crate::number::{parse_number, parsed_number};
use crate::document::bodytext::BodyText;
use crate::error::{ErrorKind, HwpError};
use crate::parser::hwpx::container::{section_files_of, zip_entry, HwpxContainer};
use crate::parser::hwpx::header::events_of_entry;
use crate::parser::hwpx::event::{Attribute, AttributeModel, EventModel, StreamEvent};
use crate::parser::hwpx::xml::{decoded, events_of, read_events};
use crate::text::{
    after_last, chars_of, find_last, is_text, push_range, push_repeated, repeated, str_is,
    string_of, string_of_range, strip_trailing, trim_bounds, trimmed, without_trailing,
};

verus! {

/// A table cell as the pass gathers it: its text, its spans, and its
/// position where the document declares one.
#[derive(Debug, Clone, PartialEq, Eq)]
pub struct HwpxCell {
    pub text: String,
    pub col_span: u16,
    pub row_span: u16,
    pub col_addr: Option<u16>,
    pub row_addr: Option<u16>,
}

/// What an `HwpxCell` holds, as contracts see it.
pub struct HwpxCellModel {
    pub text: Seq<char>,
    pub col_span: u16,
    pub row_span: u16,
    pub col_addr: Option<u16>,
    pub row_addr: Option<u16>,
}

impl View for HwpxCell {
    type V = HwpxCellModel;

    open spec fn view(&self) -> HwpxCellModel {
        HwpxCellModel {
            text: self.text@,
            col_span: self.col_span,
            row_span: self.row_span,
            col_addr: self.col_addr,
            row_addr: self.row_addr,
        }
    }
}

impl DeepView for HwpxCell {
    type V = HwpxCellModel;

    open spec fn deep_view(&self) -> HwpxCellModel {
        self@
    }
}

/// A cell without text, of one row and one column, with no declared
/// position.
pub open spec fn empty_cell() -> HwpxCellModel {
    HwpxCellModel { text: Seq::empty(), col_span: 1, row_span: 1, col_addr: None, row_addr: None }
}

/// The width that one `.` of a dotted leader stands for.
pub const DOT_WIDTH: u32 = 1200;

/// The width that one `-` or `_` of a dashed or solid leader stands for.
pub const DASH_WIDTH: u32 = 2400;

/// `n`, but at least `low` and at most `high`.
pub open spec fn clamped(n: int, low: int, high: int) -> int {
    if n < low {
        low
    } else if n > high {
        high
    } else {
        n
    }
}

/// The text that stands for a tab stop with the leader style `leader` and
/// the width `width`: a run of `.` for a dotted leader (style 3), of `-` for
/// a dashed one (style 2), of `_` for a solid one (style 1), and one tab
/// character for any other style.
pub open spec fn tab_text(leader: u8, width: u32) -> Seq<char> {
    if leader == 3 {
        repeated('.', clamped(width as int / DOT_WIDTH as int, 3, 80) as nat)
    } else if leader == 2 {
        repeated('-', clamped(width as int / DASH_WIDTH as int, 2, 40) as nat)
    } else if leader == 1 {
        repeated('_', clamped(width as int / DASH_WIDTH as int, 2, 40) as nat)
    } else {
        seq!['\t']
    }
}

/// The number that an attribute value writes, or `default` where it writes
/// none of at most `max`.
pub open spec fn number_or(value: Seq<char>, max: nat, default: nat) -> nat {
    match parsed_number(value, max) {
        Some(n) => n,
        None => default,
    }
}

/// The span that an attribute value writes: a number from 1 to 65535, and 1
/// for any other text.
pub open spec fn span_value(value: Seq<char>) -> u16 {
    match parsed_number(value, 65535) {
        Some(n) => if n == 0 {
            1u16
        } else {
            n as u16
        },
        None => 1u16,
    }
}

/// The position that an attribute value writes: a number up to 65535, and
/// none for any other text.
pub open spec fn address_value(value: Seq<char>) -> Option<u16> {
    match parsed_number(value, 65535) {
        Some(n) => Some(n as u16),
        None => None,
    }
}

/// The name of an element without the prefix that ends at its last colon.
pub open spec fn local_name(name: Seq<char>) -> Seq<char> {
    after_last(name, ':')
}

/// The leader style and the width that the attributes of a tab stop give:
/// 0 for each that is not written, or whose value is no number in range.
pub open spec fn tab_attributes(attributes: Seq<AttributeModel>) -> (u8, u32)
    decreases attributes.len(),
{
    if attributes.len() == 0 {
        (0u8, 0u32)
    } else {
        let before = tab_attributes(attributes.drop_last());
        let last = attributes.last();
        if last.key == "leader"@ {
            (number_or(last.value, 255, 0) as u8, before.1)
        } else if last.key == "width"@ {
            (before.0, number_or(last.value, 0xFFFF_FFFF, 0) as u32)
        } else {
            before
        }
    }
}

/// `cell` with the spans that the attributes of a span element give.
pub open spec fn with_spans(cell: HwpxCellModel, attributes: Seq<AttributeModel>) -> HwpxCellModel
    decreases attributes.len(),
{
    if attributes.len() == 0 {
        cell
    } else {
        let before = with_spans(cell, attributes.drop_last());
        let last = attributes.last();
        if last.key == "colSpan"@ {
            HwpxCellModel { col_span: span_value(last.value), ..before }
        } else if last.key == "rowSpan"@ {
            HwpxCellModel { row_span: span_value(last.value), ..before }
        } else {
            before
        }
    }
}

/// `cell` with the position that the attributes of an address element give.
pub open spec fn with_address(cell: HwpxCellModel, attributes: Seq<AttributeModel>) -> HwpxCellModel
    decreases attributes.len(),
{
    if attributes.len() == 0 {
        cell
    } else {
        let before = with_address(cell, attributes.drop_last());
        let last = attributes.last();
        if last.key == "colAddr"@ {
            HwpxCellModel { col_addr: address_value(last.value), ..before }
        } else if last.key == "rowAddr"@ {
            HwpxCellModel { row_addr: address_value(last.value), ..before }
        } else {
            before
        }
    }
}

/// The image that the attributes of an image element refer to: the value of
/// the last `binaryItemIDRef`, and `current` where none is written.
pub open spec fn image_reference(current: Option<Seq<char>>, attributes: Seq<AttributeModel>)
    -> Option<Seq<char>>
    decreases attributes.len(),
{
    if attributes.len() == 0 {
        current
    } else {
        let last = attributes.last();
        if last.key == "binaryItemIDRef"@ {
            Some(last.value)
        } else {
            image_reference(current, attributes.drop_last())
        }
    }
}

/// A paragraph of one text run without markers.
pub open spec fn text_paragraph(text: Seq<char>) -> ParagraphModel {
    ParagraphModel { records: seq![text_run(text)] }
}

/// A paragraph of one image reference.
pub open spec fn image_paragraph(identifier: Seq<char>) -> ParagraphModel {
    ParagraphModel { records: seq![ParagraphRecordModel::ImageRef { identifier }] }
}

/// `n` as a 16-bit number, the largest one where `n` is larger.
pub open spec fn saturated(n: int) -> u16 {
    clamped(n, 0, 65535) as u16
}

/// The column of the cell `k` of `row`: the declared one, or else the
/// column behind the cell before it, and 0 for the first cell.
pub open spec fn column_of(row: Seq<HwpxCellModel>, k: int) -> u16
    decreases k,
{
    match row[k].col_addr {
        Some(c) => c,
        None => if k <= 0 {
            0u16
        } else {
            saturated(column_of(row, k - 1) + span_of(row[k - 1].col_span))
        },
    }
}

/// The table cell that a gathered cell becomes in the row `row_index`, at
/// the column `column`: a cell of one paragraph of one text run, at the
/// declared row or else at `row_index`.
pub open spec fn table_cell(cell: HwpxCellModel, row_index: int, column: u16) -> TableCellModel {
    TableCellModel {
        paragraphs: seq![
            CellParagraphModel {
                parts: seq![CellPartModel::TextRun { text: cell.text, markers: Seq::empty() }],
            },
        ],
        row_span: cell.row_span,
        col_span: cell.col_span,
        row_address: Some(
            match cell.row_addr {
                Some(r) => r,
                None => saturated(row_index),
            },
        ),
        col_address: Some(column),
    }
}

/// The table cells of one gathered row.
pub open spec fn row_cells(row: Seq<HwpxCellModel>, row_index: int) -> Seq<TableCellModel> {
    Seq::new(row.len(), |k: int| table_cell(row[k], row_index, column_of(row, k)))
}

/// The table cells of the first `n` rows, row after row.
pub open spec fn cells_of_rows(rows: Seq<Seq<HwpxCellModel>>, n: int) -> Seq<TableCellModel>
    decreases n,
{
    if n <= 0 {
        Seq::empty()
    } else {
        cells_of_rows(rows, n - 1) + row_cells(rows[n - 1], n - 1)
    }
}

/// The first column behind the first `n` cells of `row`: the largest sum
/// of a cell's column and its span.
pub open spec fn row_extent(row: Seq<HwpxCellModel>, n: int) -> int
    decreases n,
{
    if n <= 0 {
        0
    } else {
        let before = row_extent(row, n - 1);
        let here = column_of(row, n - 1) + span_of(row[n - 1].col_span);
        if here > before {
            here
        } else {
            before
        }
    }
}

/// The first column behind all cells of the first `n` rows.
pub open spec fn rows_extent(rows: Seq<Seq<HwpxCellModel>>, n: int) -> int
    decreases n,
{
    if n <= 0 {
        0
    } else {
        let before = rows_extent(rows, n - 1);
        let here = row_extent(rows[n - 1], rows[n - 1].len() as int);
        if here > before {
            here
        } else {
            before
        }
    }
}

/// The table that gathered rows become. It declares as many rows as were
/// gathered, and as many columns as the cell that reaches furthest to the
/// right needs, each at most 65535.
pub open spec fn table_of_rows(rows: Seq<Seq<HwpxCellModel>>) -> TableModel {
    TableModel {
        row_count: saturated(rows.len() as int),
        col_count: saturated(rows_extent(rows, rows.len() as int)),
        cells: cells_of_rows(rows, rows.len() as int),
    }
}

/// A paragraph of one table.
pub open spec fn table_paragraph(rows: Seq<Seq<HwpxCellModel>>) -> ParagraphModel {
    ParagraphModel { records: seq![ParagraphRecordModel::Table { table: table_of_rows(rows) }] }
}

/// What the pass knows between two events.
pub struct ParserModel {
    /// The paragraphs handed out so far.
    pub paragraphs: Seq<ParagraphModel>,
    /// The records gathered for the top-level paragraph that stands open.
    pub current_records: Seq<ParagraphRecordModel>,
    /// The text gathered for that paragraph since its last record.
    pub current_text: Seq<char>,
    /// A text element stands open.
    pub in_text: bool,
    /// A table stands open.
    pub in_table: bool,
    /// A table cell stands open.
    pub in_cell: bool,
    /// A table caption stands open.
    pub in_caption: bool,
    /// The image that the drawing container refers to, once one was seen.
    pub current_image_ref: Option<Seq<char>>,
    /// The rows gathered for the table that stands open.
    pub table_rows: Seq<Seq<HwpxCellModel>>,
    /// The cells gathered for the row that stands open.
    pub current_row: Seq<HwpxCellModel>,
    /// The cell that stands open.
    pub current_cell: HwpxCellModel,
    /// The caption gathered for the table that stands open.
    pub table_caption: Seq<char>,
    /// How many paragraphs stand open, one inside the other.
    pub para_depth: u32,
}

/// The state before the first event.
pub open spec fn initial() -> ParserModel {
    ParserModel {
        paragraphs: Seq::empty(),
        current_records: Seq::empty(),
        current_text: Seq::empty(),
        in_text: false,
        in_table: false,
        in_cell: false,
        in_caption: false,
        current_image_ref: None,
        table_rows: Seq::empty(),
        current_row: Seq::empty(),
        current_cell: empty_cell(),
        table_caption: Seq::empty(),
        para_depth: 0,
    }
}

/// Text goes to one place: to the caption where a caption stands open in a
/// table; else to the cell where a cell stands open in a table; else to the
/// paragraph text where no table stands open; else nowhere.
pub open spec fn with_text(s: ParserModel, text: Seq<char>) -> ParserModel {
    if s.in_table && s.in_caption {
        ParserModel { table_caption: s.table_caption + text, ..s }
    } else if s.in_table && s.in_cell {
        ParserModel {
            current_cell: HwpxCellModel { text: s.current_cell.text + text, ..s.current_cell },
            ..s
        }
    } else if !s.in_table {
        ParserModel { current_text: s.current_text + text, ..s }
    } else {
        s
    }
}

/// The state after an element opens.
pub open spec fn opened(s: ParserModel, name: Seq<char>, attributes: Seq<AttributeModel>)
    -> ParserModel {
    let tag = local_name(name);
    if tag == "p"@ {
        let depth = if s.para_depth == 0xFFFF_FFFF {
            s.para_depth
        } else {
            (s.para_depth + 1) as u32
        };
        if !s.in_table && depth == 1 {
            ParserModel {
                para_depth: depth,
                current_text: Seq::empty(),
                current_records: Seq::empty(),
                ..s
            }
        } else {
            ParserModel { para_depth: depth, ..s }
        }
    } else if tag == "t"@ {
        ParserModel { in_text: true, ..s }
    } else if tag == "tbl"@ {
        ParserModel { in_table: true, table_rows: Seq::empty(), table_caption: Seq::empty(), ..s }
    } else if tag == "caption"@ {
        ParserModel { in_caption: true, ..s }
    } else if tag == "tr"@ {
        ParserModel { current_row: Seq::empty(), ..s }
    } else if tag == "tc"@ {
        ParserModel { in_cell: true, current_cell: empty_cell(), ..s }
    } else if tag == "pic"@ {
        ParserModel { current_image_ref: None, ..s }
    } else if tag == "tab"@ {
        let (leader, width) = tab_attributes(attributes);
        with_text(s, tab_text(leader, width))
    } else if tag == "cellSpan"@ {
        ParserModel { current_cell: with_spans(s.current_cell, attributes), ..s }
    } else if tag == "cellAddr"@ {
        ParserModel { current_cell: with_address(s.current_cell, attributes), ..s }
    } else if tag == "img"@ {
        ParserModel { current_image_ref: image_reference(s.current_image_ref, attributes), ..s }
    } else {
        s
    }
}

/// A text run without markers.
pub open spec fn text_run(text: Seq<char>) -> ParagraphRecordModel {
    ParagraphRecordModel::TextRun { text, markers: Seq::empty() }
}

/// The records of the open paragraph with its gathered text, if it has
/// any, as their last run.
pub open spec fn records_with_text(s: ParserModel) -> Seq<ParagraphRecordModel> {
    if s.current_text.len() > 0 {
        s.current_records.push(text_run(s.current_text))
    } else {
        s.current_records
    }
}

/// The state after a paragraph closes.
///
/// A top-level paragraph outside a table is handed out with its records,
/// the text gathered since the last of them being its last run; it is not
/// handed out if it has no record. A paragraph in a cell that has text ends
/// in a line separator. A nested paragraph outside a table leaves its text,
/// with a line separator behind it, to the paragraph around it.
pub open spec fn closed_paragraph(s: ParserModel) -> ParserModel {
    let flush = s.para_depth == 1 && !s.in_table;
    let records = records_with_text(s);
    let paragraphs = if flush && records.len() > 0 {
        s.paragraphs.push(ParagraphModel { records })
    } else {
        s.paragraphs
    };
    let kept = if flush {
        Seq::empty()
    } else {
        s.current_records
    };
    let text = if flush {
        Seq::empty()
    } else {
        s.current_text
    };
    let cell = if s.in_cell && s.current_cell.text.len() > 0 {
        HwpxCellModel { text: s.current_cell.text.push('\n'), ..s.current_cell }
    } else {
        s.current_cell
    };
    let text = if s.para_depth > 1 && !s.in_table && text.len() > 0 {
        text.push('\n')
    } else {
        text
    };
    let depth = if s.para_depth == 0 {
        0u32
    } else {
        (s.para_depth - 1) as u32
    };
    ParserModel {
        paragraphs,
        current_records: kept,
        current_text: text,
        current_cell: cell,
        para_depth: depth,
        ..s
    }
}

/// The state after a cell closes: the cell, without the line separators at
/// the end of its text, joins the row.
pub open spec fn closed_cell(s: ParserModel) -> ParserModel {
    let cell = HwpxCellModel {
        text: without_trailing(s.current_cell.text, '\n'),
        ..s.current_cell
    };
    ParserModel {
        current_row: s.current_row.push(cell),
        current_cell: empty_cell(),
        in_cell: false,
        ..s
    }
}

/// The state after a row closes: the row joins the table, unless it has no
/// cell.
pub open spec fn closed_row(s: ParserModel) -> ParserModel {
    if s.current_row.len() > 0 {
        ParserModel {
            table_rows: s.table_rows.push(s.current_row),
            current_row: Seq::empty(),
            ..s
        }
    } else {
        s
    }
}

/// The state after a table closes: its caption, where it has one that is
/// not blank, is handed out as a paragraph of its own, and after it the
/// table, where it has a row.
pub open spec fn closed_table(s: ParserModel) -> ParserModel {
    let caption = trimmed(s.table_caption);
    let with_caption = if caption.len() > 0 {
        s.paragraphs.push(text_paragraph(caption))
    } else {
        s.paragraphs
    };
    let with_table = if s.table_rows.len() > 0 {
        with_caption.push(table_paragraph(s.table_rows))
    } else {
        with_caption
    };
    ParserModel {
        paragraphs: with_table,
        in_table: false,
        table_caption: Seq::empty(),
        table_rows: Seq::empty(),
        ..s
    }
}

/// The state after a drawing container closes: the image it refers to,
/// where one was seen, becomes one image reference. A paragraph that
/// stands open outside any table takes it as its next record, behind the
/// text gathered so far; where there is no such paragraph the image is
/// handed out as a paragraph of its own.
pub open spec fn closed_picture(s: ParserModel) -> ParserModel {
    match s.current_image_ref {
        Some(identifier) => if !s.in_table && s.para_depth >= 1 {
            ParserModel {
                current_records: records_with_text(s).push(
                    ParagraphRecordModel::ImageRef { identifier },
                ),
                current_text: Seq::empty(),
                current_image_ref: None,
                ..s
            }
        } else {
            ParserModel {
                paragraphs: s.paragraphs.push(image_paragraph(identifier)),
                current_image_ref: None,
                ..s
            }
        },
        None => s,
    }
}

/// The state after an element closes.
pub open spec fn closed(s: ParserModel, name: Seq<char>) -> ParserModel {
    let tag = local_name(name);
    if tag == "p"@ {
        closed_paragraph(s)
    } else if tag == "t"@ {
        ParserModel { in_text: false, ..s }
    } else if tag == "caption"@ {
        ParserModel { in_caption: false, ..s }
    } else if tag == "tbl"@ {
        closed_table(s)
    } else if tag == "tr"@ {
        closed_row(s)
    } else if tag == "tc"@ {
        closed_cell(s)
    } else if tag == "pic"@ {
        closed_picture(s)
    } else {
        s
    }
}

/// The state after one event.
pub open spec fn step(s: ParserModel, event: EventModel) -> ParserModel {
    match event {
        EventModel::Open { name, attributes } => opened(s, name, attributes),
        EventModel::Close { name } => closed(s, name),
        EventModel::Text { text } => if s.in_text {
            with_text(s, text)
        } else {
            s
        },
    }
}

/// The state after the events of `events`, one after the other.
pub open spec fn run(s: ParserModel, events: Seq<EventModel>) -> ParserModel
    decreases events.len(),
{
    if events.len() == 0 {
        s
    } else {
        step(run(s, events.drop_last()), events.last())
    }
}

/// The state after closing paragraphs until at most `depth` stand open.
pub open spec fn closed_paragraphs_down_to(s: ParserModel, depth: u32) -> ParserModel
    decreases s.para_depth,
{
    if s.para_depth > depth {
        closed_paragraphs_down_to(closed_paragraph(s), depth)
    } else {
        s
    }
}

/// The state at the end of the stream: whatever still stands open closes,
/// the innermost first. A drawing container that has seen an image; a text
/// element; a caption; in a table the paragraphs inside it, its cell, its
/// row and the table; and then the paragraphs that remain.
pub open spec fn finish(s: ParserModel) -> ParserModel {
    let s = closed_picture(s);
    let s = ParserModel { in_text: false, in_caption: false, ..s };
    let s = if s.in_table {
        let s = closed_paragraphs_down_to(s, 1);
        let s = if s.in_cell {
            closed_cell(s)
        } else {
            s
        };
        closed_table(closed_row(s))
    } else {
        s
    };
    closed_paragraphs_down_to(s, 0)
}

/// The section that a stream of events describes.
pub open spec fn section_of(events: Seq<EventModel>, index: u16) -> SectionModel {
    SectionModel { index, paragraphs: finish(run(initial(), events)).paragraphs }
}

impl Default for HwpxCell {
    fn default() -> (cell: Self)
        ensures
            cell@ == empty_cell(),
    {
        HwpxCell { text: String::new(), col_span: 1, row_span: 1, col_addr: None, row_addr: None }
    }
}

/// The name of an element without its prefix.
pub fn local_name_of(name: &str) -> (tag: Vec<char>)
    ensures
        tag@ == local_name(name@),
{
    let chars = chars_of(name);
    let from = match find_last(&chars, ':') {
        Some(i) => i + 1,
        None => 0,
    };
    let mut tag: Vec<char> = Vec::new();
    push_range(&mut tag, &chars, from, chars.len());
    tag
}

/// The text that stands for a tab stop.
pub fn expand_tab(leader: u8, width: u32) -> (text: Vec<char>)
    ensures
        text@ == tab_text(leader, width),
        leader == 3 ==> 3 <= text@.len() <= 80,
{
    let mut text: Vec<char> = Vec::new();
    if leader == 3 {
        let n = width / DOT_WIDTH;
        let count: usize = if n < 3 {
            3
        } else if n > 80 {
            80
        } else {
            n as usize
        };
        push_repeated(&mut text, '.', count);
    } else if leader == 2 || leader == 1 {
        let n = width / DASH_WIDTH;
        let count: usize = if n < 2 {
            2
        } else if n > 40 {
            40
        } else {
            n as usize
        };
        if leader == 2 {
            push_repeated(&mut text, '-', count);
        } else {
            push_repeated(&mut text, '_', count);
        }
    } else {
        text.push('\t');
    }
    text
}

/// Reads the number that an attribute value writes, or gives `default`.
fn read_number(value: &str, max: u64, default: u64) -> (n: u64)
    requires
        default <= max,
    ensures
        n == number_or(value@, max as nat, default as nat),
        n <= max,
{
    let chars = chars_of(value);
    match parse_number(&chars, max) {
        Some(n) => n,
        None => default,
    }
}

/// Reads the span that an attribute value writes.
fn read_span(value: &str) -> (span: u16)
    ensures
        span == span_value(value@),
        span >= 1,
{
    let chars = chars_of(value);
    match parse_number(&chars, 65535) {
        Some(n) => if n == 0 {
            1
        } else {
            n as u16
        },
        None => 1,
    }
}

/// Reads the position that an attribute value writes.
fn read_address(value: &str) -> (address: Option<u16>)
    ensures
        address == address_value(value@),
{
    let chars = chars_of(value);
    match parse_number(&chars, 65535) {
        Some(n) => Some(n as u16),
        None => None,
    }
}

/// Reads the leader style and the width of a tab stop.
fn read_tab_attributes(attributes: &Vec<Attribute>) -> (tab: (u8, u32))
    ensures
        tab == tab_attributes(attributes.deep_view()),
{
    let mut leader: u8 = 0;
    let mut width: u32 = 0;
    let ghost all = attributes.deep_view();
    let mut i: usize = 0;
    while i < attributes.len()
        invariant
            i <= attributes.len(),
            all == attributes.deep_view(),
            (leader, width) == tab_attributes(all.take(i as int)),
        decreases attributes.len() - i,
    {
        proof {
            assert(all.take(i + 1).drop_last() =~= all.take(i as int));
        }
        let attribute = &attributes[i];
        if str_is(attribute.key.as_str(), "leader") {
            leader = read_number(attribute.value.as_str(), 255, 0) as u8;
        } else if str_is(attribute.key.as_str(), "width") {
            width = read_number(attribute.value.as_str(), 0xFFFF_FFFF, 0) as u32;
        }
        i += 1;
    }
    assert(all.take(attributes@.len() as int) =~= all);
    (leader, width)
}

/// Creates a paragraph that holds `text` as one run without markers.
pub fn create_paragraph(text: &str) -> (paragraph: Paragraph)
    ensures
        paragraph@ == text_paragraph(text@),
{
    let mut records: Vec<ParagraphRecord> = Vec::new();
    records.push(ParagraphRecord::TextRun { text: text.to_owned(), markers: Vec::new() });
    let paragraph = Paragraph { records };
    assert(paragraph@.records =~= text_paragraph(text@).records);
    paragraph
}

/// Creates a paragraph that holds one reference to an image.
pub fn create_image_paragraph(binary_item_ref: &str) -> (paragraph: Paragraph)
    ensures
        paragraph@ == image_paragraph(binary_item_ref@),
{
    let mut records: Vec<ParagraphRecord> = Vec::new();
    records.push(ParagraphRecord::ImageRef { identifier: binary_item_ref.to_owned() });
    let paragraph = Paragraph { records };
    assert(paragraph@.records =~= image_paragraph(binary_item_ref@).records);
    paragraph
}

fn sum_saturated(column: u16, span: u16) -> (next: u16)
    ensures
        next == saturated(column + span_of(span)),
{
    let width: u32 = if span == 0 {
        1
    } else {
        span as u32
    };
    let sum: u32 = column as u32 + width;
    if sum > 65535 {
        65535
    } else {
        sum as u16
    }
}

fn create_table_cell(cell: &HwpxCell, row_index: usize, column: u16) -> (out: TableCell)
    ensures
        out@ == table_cell(cell@, row_index as int, column),
{
    let mut parts: Vec<CellPart> = Vec::new();
    parts.push(CellPart::TextRun { text: cell.text.clone(), markers: Vec::new() });
    let mut paragraphs: Vec<CellParagraph> = Vec::new();
    paragraphs.push(CellParagraph { parts });
    let row: u16 = match cell.row_addr {
        Some(r) => r,
        None => if row_index > 65535 {
            65535
        } else {
            row_index as u16
        },
    };
    let out = TableCell {
        paragraphs,
        row_span: cell.row_span,
        col_span: cell.col_span,
        row_address: Some(row),
        col_address: Some(column),
    };
    proof {
        let want = table_cell(cell@, row_index as int, column);
        assert(out@.paragraphs[0].parts =~= want.paragraphs[0].parts);
        assert(out@.paragraphs =~= want.paragraphs);
    }
    out
}

/// Creates a paragraph that holds the table of the gathered rows.
///
/// Each cell gets its declared position. A cell without a declared row is
/// in the row it was gathered in; one without a declared column stands
/// behind the cell before it.
pub fn create_table_paragraph_with_spans(rows: &[Vec<HwpxCell>]) -> (paragraph: Paragraph)
    ensures
        paragraph@ == table_paragraph(rows.deep_view()),
{
    let ghost all = rows.deep_view();
    let mut cells: Vec<TableCell> = Vec::new();
    let mut extent: u32 = 0;
    let mut i: usize = 0;
    while i < rows.len()
        invariant
            i <= rows.len(),
            all == rows.deep_view(),
            cells.deep_view() == cells_of_rows(all, i as int),
            extent == rows_extent(all, i as int),
            extent <= 131070,
        decreases rows.len() - i,
    {
        let row = &rows[i];
        let ghost row_model = all[i as int];
        let ghost done = cells.deep_view();
        let mut next_column: u16 = 0;
        let mut row_end: u32 = 0;
        let mut k: usize = 0;
        while k < row.len()
            invariant
                k <= row.len(),
                row_model == row.deep_view(),
                cells.deep_view() == done + row_cells(row_model, i as int).take(k as int),
                k > 0 ==> next_column == saturated(
                    column_of(row_model, k - 1) + span_of(row_model[k - 1].col_span),
                ),
                row_end == row_extent(row_model, k as int),
                row_end <= 131070,
            decreases row.len() - k,
        {
            let cell = &row[k];
            let column: u16 = match cell.col_addr {
                Some(c) => c,
                None => if k == 0 {
                    0
                } else {
                    next_column
                },
            };
            let table_cell = create_table_cell(cell, i, column);
            let ghost before = cells;
            cells.push(table_cell);
            proof {
                lemma_deep_view_push(before, cells, table_cell);
            }
            next_column = sum_saturated(column, cell.col_span);
            let width: u32 = if cell.col_span == 0 {
                1
            } else {
                cell.col_span as u32
            };
            let end: u32 = column as u32 + width;
            if end > row_end {
                row_end = end;
            }
            k += 1;
        }
        if row_end > extent {
            extent = row_end;
        }
        i += 1;
    }
    let row_count: u16 = if rows.len() > 65535 {
        65535
    } else {
        rows.len() as u16
    };
    let col_count: u16 = if extent > 65535 {
        65535
    } else {
        extent as u16
    };
    let table = Table { row_count, col_count, cells };
    let mut records: Vec<ParagraphRecord> = Vec::new();
    records.push(ParagraphRecord::Table { table });
    let paragraph = Paragraph { records };
    assert(paragraph@.records =~= table_paragraph(all).records);
    paragraph
}

/// The state of the pass over the events of one section.
pub struct SectionParser {
    paragraphs: Vec<Paragraph>,
    current_records: Vec<ParagraphRecord>,
    current_text: String,
    in_text: bool,
    in_table: bool,
    in_cell: bool,
    in_caption: bool,
    current_image_ref: Option<String>,
    table_rows: Vec<Vec<HwpxCell>>,
    current_row: Vec<HwpxCell>,
    current_cell: HwpxCell,
    table_caption: String,
    para_depth: u32,
}

impl View for SectionParser {
    type V = ParserModel;

    closed spec fn view(&self) -> ParserModel {
        ParserModel {
            paragraphs: self.paragraphs.deep_view(),
            current_records: self.current_records.deep_view(),
            current_text: self.current_text@,
            in_text: self.in_text,
            in_table: self.in_table,
            in_cell: self.in_cell,
            in_caption: self.in_caption,
            current_image_ref: match self.current_image_ref {
                Some(identifier) => Some(identifier@),
                None => None,
            },
            table_rows: self.table_rows.deep_view(),
            current_row: self.current_row.deep_view(),
            current_cell: self.current_cell@,
            table_caption: self.table_caption@,
            para_depth: self.para_depth,
        }
    }
}

impl SectionParser {
    /// The state before the first event.
    pub fn new() -> (parser: Self)
        ensures
            parser@ == initial(),
    {
        let parser = SectionParser {
            paragraphs: Vec::new(),
            current_records: Vec::new(),
            current_text: String::new(),
            in_text: false,
            in_table: false,
            in_cell: false,
            in_caption: false,
            current_image_ref: None,
            table_rows: Vec::new(),
            current_row: Vec::new(),
            current_cell: HwpxCell::default(),
            table_caption: String::new(),
            para_depth: 0,
        };
        proof {
            assert(parser@.paragraphs =~= initial().paragraphs);
            assert(parser@.current_records =~= initial().current_records);
            assert(parser@.table_rows =~= initial().table_rows);
            assert(parser@.current_row =~= initial().current_row);
        }
        parser
    }

    /// Takes one event.
    pub fn feed(&mut self, event: &StreamEvent)
        ensures
            final(self)@ == step(old(self)@, event@),
    {
        match event {
            StreamEvent::Open { name, attributes } => {
                self.open(name.as_str(), attributes);
            },
            StreamEvent::Close { name } => {
                self.close(name.as_str());
            },
            StreamEvent::Text { text } => {
                if self.in_text {
                    self.add_text(text.as_str());
                }
            },
        }
    }

    /// Puts text where text goes at this point of the stream.
    fn add_text(&mut self, text: &str)
        ensures
            final(self)@ == with_text(old(self)@, text@),
    {
        if self.in_table && self.in_caption {
            self.table_caption.append(text);
        } else if self.in_table && self.in_cell {
            self.current_cell.text.append(text);
        } else if !self.in_table {
            self.current_text.append(text);
        }
    }

    /// Takes the opening of an element.
    fn open(&mut self, name: &str, attributes: &Vec<Attribute>)
        ensures
            final(self)@ == opened(old(self)@, name@, attributes.deep_view()),
    {
        let tag = local_name_of(name);
        if is_text(&tag, "p") {
            if self.para_depth < 0xFFFF_FFFF {
                self.para_depth = self.para_depth + 1;
            }
            if !self.in_table && self.para_depth == 1 {
                self.current_text = String::new();
                self.current_records = Vec::new();
                assert(self.current_records.deep_view() =~= Seq::<ParagraphRecordModel>::empty());
            }
        } else if is_text(&tag, "t") {
            self.in_text = true;
        } else if is_text(&tag, "tbl") {
            self.in_table = true;
            self.table_rows = Vec::new();
            self.table_caption = String::new();
            assert(self.table_rows.deep_view() =~= Seq::<Seq<HwpxCellModel>>::empty());
        } else if is_text(&tag, "caption") {
            self.in_caption = true;
        } else if is_text(&tag, "tr") {
            self.current_row = Vec::new();
            assert(self.current_row.deep_view() =~= Seq::<HwpxCellModel>::empty());
        } else if is_text(&tag, "tc") {
            self.in_cell = true;
            self.current_cell = HwpxCell::default();
        } else if is_text(&tag, "pic") {
            self.current_image_ref = None;
        } else if is_text(&tag, "tab") {
            let (leader, width) = read_tab_attributes(attributes);
            let expansion = expand_tab(leader, width);
            let text = string_of(&expansion);
            self.add_text(text.as_str());
        } else if is_text(&tag, "cellSpan") {
            self.read_spans(attributes);
        } else if is_text(&tag, "cellAddr") {
            self.read_cell_address(attributes);
        } else if is_text(&tag, "img") {
            self.read_image_reference(attributes);
        }
    }

    /// Takes the spans of the open cell from a span element.
    fn read_spans(&mut self, attributes: &Vec<Attribute>)
        ensures
            final(self)@ == (ParserModel {
                current_cell: with_spans(old(self)@.current_cell, attributes.deep_view()),
                ..old(self)@
            }),
    {
        let ghost all = attributes.deep_view();
        let ghost start = self@;
        let mut i: usize = 0;
        while i < attributes.len()
            invariant
                i <= attributes.len(),
                all == attributes.deep_view(),
                self@ == (ParserModel {
                    current_cell: with_spans(start.current_cell, all.take(i as int)),
                    ..start
                }),
            decreases attributes.len() - i,
        {
            proof {
                assert(all.take(i + 1).drop_last() =~= all.take(i as int));
            }
            let attribute = &attributes[i];
            if str_is(attribute.key.as_str(), "colSpan") {
                self.current_cell.col_span = read_span(attribute.value.as_str());
            } else if str_is(attribute.key.as_str(), "rowSpan") {
                self.current_cell.row_span = read_span(attribute.value.as_str());
            }
            i += 1;
        }
        assert(all.take(attributes@.len() as int) =~= all);
    }

    /// Takes the position of the open cell from an address element.
    fn read_cell_address(&mut self, attributes: &Vec<Attribute>)
        ensures
            final(self)@ == (ParserModel {
                current_cell: with_address(old(self)@.current_cell, attributes.deep_view()),
                ..old(self)@
            }),
    {
        let ghost all = attributes.deep_view();
        let ghost start = self@;
        let mut i: usize = 0;
        while i < attributes.len()
            invariant
                i <= attributes.len(),
                all == attributes.deep_view(),
                self@ == (ParserModel {
                    current_cell: with_address(start.current_cell, all.take(i as int)),
                    ..start
                }),
            decreases attributes.len() - i,
        {
            proof {
                assert(all.take(i + 1).drop_last() =~= all.take(i as int));
            }
            let attribute = &attributes[i];
            if str_is(attribute.key.as_str(), "colAddr") {
                self.current_cell.col_addr = read_address(attribute.value.as_str());
            } else if str_is(attribute.key.as_str(), "rowAddr") {
                self.current_cell.row_addr = read_address(attribute.value.as_str());
            }
            i += 1;
        }
        assert(all.take(attributes@.len() as int) =~= all);
    }

    /// Takes the image that an image element refers to.
    fn read_image_reference(&mut self, attributes: &Vec<Attribute>)
        ensures
            final(self)@ == (ParserModel {
                current_image_ref: image_reference(
                    old(self)@.current_image_ref,
                    attributes.deep_view(),
                ),
                ..old(self)@
            }),
    {
        let ghost all = attributes.deep_view();
        let ghost start = self@;
        let mut i: usize = 0;
        while i < attributes.len()
            invariant
                i <= attributes.len(),
                all == attributes.deep_view(),
                self@ == (ParserModel {
                    current_image_ref: image_reference(
                        start.current_image_ref,
                        all.take(i as int),
                    ),
                    ..start
                }),
            decreases attributes.len() - i,
        {
            proof {
                assert(all.take(i + 1).drop_last() =~= all.take(i as int));
            }
            let attribute = &attributes[i];
            if str_is(attribute.key.as_str(), "binaryItemIDRef") {
                self.current_image_ref = Some(attribute.value.clone());
            }
            i += 1;
        }
        assert(all.take(attributes@.len() as int) =~= all);
    }

    /// Takes the closing of an element.
    fn close(&mut self, name: &str)
        ensures
            final(self)@ == closed(old(self)@, name@),
    {
        let tag = local_name_of(name);
        if is_text(&tag, "p") {
            self.close_paragraph();
        } else if is_text(&tag, "t") {
            self.in_text = false;
        } else if is_text(&tag, "caption") {
            self.in_caption = false;
        } else if is_text(&tag, "tbl") {
            self.close_table();
        } else if is_text(&tag, "tr") {
            self.close_row();
        } else if is_text(&tag, "tc") {
            self.close_cell();
        } else if is_text(&tag, "pic") {
            self.close_picture();
        }
    }

    /// Makes a run of the text gathered since the last record, if there is
    /// any, and puts it behind the records of the open paragraph.
    fn flush_text(&mut self)
        ensures
            final(self)@ == (ParserModel {
                current_records: records_with_text(old(self)@),
                current_text: Seq::empty(),
                ..old(self)@
            }),
    {
        if !self.current_text.as_str().is_empty() {
            let mut text = String::new();
            core::mem::swap(&mut text, &mut self.current_text);
            let record = ParagraphRecord::TextRun { text, markers: Vec::new() };
            assert(record@ == text_run(text@));
            let ghost before = self.current_records;
            self.current_records.push(record);
            proof {
                lemma_deep_view_push(before, self.current_records, record);
            }
        } else {
            assert(self.current_text@ =~= Seq::<char>::empty());
        }
    }

    fn close_paragraph(&mut self)
        ensures
            final(self)@ == closed_paragraph(old(self)@),
    {
        if self.para_depth == 1 && !self.in_table {
            self.flush_text();
            let mut records: Vec<ParagraphRecord> = Vec::new();
            core::mem::swap(&mut records, &mut self.current_records);
            assert(self.current_records.deep_view() =~= Seq::<ParagraphRecordModel>::empty());
            if records.len() > 0 {
                let paragraph = Paragraph { records };
                let ghost before = self.paragraphs;
                self.paragraphs.push(paragraph);
                proof {
                    lemma_deep_view_push(before, self.paragraphs, paragraph);
                }
            }
        }
        if self.in_cell && !self.current_cell.text.as_str().is_empty() {
            self.current_cell.text.push('\n');
        }
        if self.para_depth > 1 && !self.in_table && !self.current_text.as_str().is_empty() {
            self.current_text.push('\n');
        }
        if self.para_depth > 0 {
            self.para_depth = self.para_depth - 1;
        }
    }

    fn close_cell(&mut self)
        ensures
            final(self)@ == closed_cell(old(self)@),
    {
        let mut cell = HwpxCell::default();
        core::mem::swap(&mut cell, &mut self.current_cell);
        let mut text = chars_of(cell.text.as_str());
        strip_trailing(&mut text, '\n');
        cell.text = string_of(&text);
        let ghost before = self.current_row;
        self.current_row.push(cell);
        proof {
            lemma_deep_view_push(before, self.current_row, cell);
        }
        self.in_cell = false;
    }

    fn close_row(&mut self)
        ensures
            final(self)@ == closed_row(old(self)@),
    {
        if self.current_row.len() > 0 {
            let mut row: Vec<HwpxCell> = Vec::new();
            core::mem::swap(&mut row, &mut self.current_row);
            let ghost before = self.table_rows;
            self.table_rows.push(row);
            proof {
                lemma_deep_view_push(before, self.table_rows, row);
                assert(self.current_row.deep_view() =~= Seq::<HwpxCellModel>::empty());
            }
        }
    }

    fn close_table(&mut self)
        ensures
            final(self)@ == closed_table(old(self)@),
    {
        let caption = chars_of(self.table_caption.as_str());
        let (from, to) = trim_bounds(&caption);
        if from < to {
            let text = string_of_range(&caption, from, to);
            let paragraph = create_paragraph(text.as_str());
            let ghost before = self.paragraphs;
            self.paragraphs.push(paragraph);
            proof {
                lemma_deep_view_push(before, self.paragraphs, paragraph);
            }
        }
        if self.table_rows.len() > 0 {
            let rows = self.table_rows.as_slice();
            let paragraph = create_table_paragraph_with_spans(rows);
            let ghost before = self.paragraphs;
            self.paragraphs.push(paragraph);
            proof {
                lemma_deep_view_push(before, self.paragraphs, paragraph);
            }
        }
        self.in_table = false;
        self.table_caption = String::new();
        self.table_rows = Vec::new();
        assert(self.table_rows.deep_view() =~= Seq::<Seq<HwpxCellModel>>::empty());
    }

    fn close_picture(&mut self)
        ensures
            final(self)@ == closed_picture(old(self)@),
    {
        let mut reference: Option<String> = None;
        core::mem::swap(&mut reference, &mut self.current_image_ref);
        match reference {
            Some(identifier) => {
                if !self.in_table && self.para_depth >= 1 {
                    self.flush_text();
                    let record = ParagraphRecord::ImageRef { identifier };
                    let ghost before = self.current_records;
                    self.current_records.push(record);
                    proof {
                        lemma_deep_view_push(before, self.current_records, record);
                    }
                } else {
                    let paragraph = create_image_paragraph(identifier.as_str());
                    let ghost before = self.paragraphs;
                    self.paragraphs.push(paragraph);
                    proof {
                        lemma_deep_view_push(before, self.paragraphs, paragraph);
                    }
                }
            },
            None => {},
        }
    }

    fn close_paragraphs_down_to(&mut self, depth: u32)
        ensures
            final(self)@ == closed_paragraphs_down_to(old(self)@, depth),
    {
        while self.para_depth > depth
            invariant
                closed_paragraphs_down_to(self@, depth) == closed_paragraphs_down_to(
                    old(self)@,
                    depth,
                ),
            decreases self.para_depth,
        {
            self.close_paragraph();
        }
    }

    /// Ends the stream: closes what stands open and hands out the section.
    pub fn finish(self, index: u16) -> (section: Section)
        ensures
            section@ == (SectionModel { index, paragraphs: finish(self@).paragraphs }),
    {
        let mut parser = self;
        parser.close_picture();
        parser.in_text = false;
        parser.in_caption = false;
        if parser.in_table {
            parser.close_paragraphs_down_to(1);
            if parser.in_cell {
                parser.close_cell();
            }
            parser.close_row();
            parser.close_table();
        }
        parser.close_paragraphs_down_to(0);
        Section { index, paragraphs: parser.paragraphs }
    }
}

/// Reads the section that a stream of events describes.
///
/// No stream is refused: names that the pass does not know are passed
/// over, and what stands open at the end of the stream closes there.
pub fn parse_events(events: &Vec<StreamEvent>, index: u16) -> (section: Section)
    ensures
        section@ == section_of(events.deep_view(), index),
{
    let mut parser = SectionParser::new();
    let ghost all = events.deep_view();
    let mut i: usize = 0;
    while i < events.len()
        invariant
            i <= events.len(),
            all == events.deep_view(),
            parser@ == run(initial(), all.take(i as int)),
        decreases events.len() - i,
    {
        proof {
            assert(all.take(i + 1).drop_last() =~= all.take(i as int));
        }
        parser.feed(&events[i]);
        i += 1;
    }
    assert(all.take(events@.len() as int) =~= all);
    parser.finish(index)
}

/// Reads one section from the XML text of its part.
///
/// The text is refused, with an `XmlParseError`, exactly when it is no XML
/// up to its end. Any other text gives the section of its events.
pub fn parse_section_xml(content: &str, index: u16) -> (result: Result<Section, HwpError>)
    ensures
        match result {
            Ok(section) => decoded(content@).complete && section@ == section_of(
                events_of(decoded(content@).tokens),
                index,
            ),
            Err(error) => !decoded(content@).complete && error is XmlParseError,
        },
{
    match read_events(content, "Error parsing section XML: ") {
        Ok(events) => Ok(parse_events(&events, index)),
        Err(error) => Err(error),
    }
}

/// A dotted leader is never shorter than three dots, nor longer than
/// eighty, whatever the width of its tab stop; below the width of one dot
/// it is three dots.
pub proof fn lemma_dotted_leader_length(width: u32)
    ensures
        3 <= tab_text(3, width).len() <= 80,
        forall|i: int| 0 <= i < tab_text(3, width).len() ==> tab_text(3, width)[i] == '.',
        width < DOT_WIDTH ==> tab_text(3, width) == seq!['.', '.', '.'],
{
}

/// The sections that the first `n` of the section files `files` of the
/// container `data` give, or the kind of error that reading the first bad
/// one of them ends in. Each section keeps the place of its file among
/// `files`, as far as 16 bits hold it.
pub open spec fn sections_upto(data: Seq<u8>, files: Seq<Seq<char>>, n: int) -> Result<
    Seq<SectionModel>,
    ErrorKind,
>
    decreases n,
{
    if n <= 0 {
        Ok(Seq::empty())
    } else {
        match sections_upto(data, files, n - 1) {
            Ok(before) => match events_of_entry(zip_entry(data, files[n - 1])) {
                Ok(events) => Ok(before.push(section_of(events, ((n - 1) % 65536) as u16))),
                Err(kind) => Err(kind),
            },
            Err(kind) => Err(kind),
        }
    }
}

/// The sections of the container `data`, whose files have the names
/// `names`. A container without section files has an invalid structure.
pub open spec fn sections_of(data: Seq<u8>, names: Seq<Seq<char>>) -> Result<
    Seq<SectionModel>,
    ErrorKind,
> {
    let files = section_files_of(names);
    if files.len() == 0 {
        Err(ErrorKind::InvalidStructure)
    } else {
        sections_upto(data, files, files.len() as int)
    }
}

/// Once a section file cannot be read, no file behind it changes that.
proof fn lemma_first_error_stays(data: Seq<u8>, files: Seq<Seq<char>>, m: int, n: int)
    requires
        0 <= m <= n,
        sections_upto(data, files, m) is Err,
    ensures
        sections_upto(data, files, n) == sections_upto(data, files, m),
    decreases n - m,
{
    if m < n {
        lemma_first_error_stays(data, files, m, n - 1);
    }
}

/// Reads all sections of the container, in the order of their numbers.
pub fn parse_sections(container: &mut HwpxContainer) -> (result: Result<BodyText, HwpError>)
    ensures
        final(container).source() == old(container).source(),
        match result {
            Ok(body) => sections_of(old(container).source(), old(container).names()) == Ok::<
                Seq<SectionModel>,
                ErrorKind,
            >(body.sections.deep_view()),
            Err(error) => sections_of(old(container).source(), old(container).names()) == Err::<
                Seq<SectionModel>,
                ErrorKind,
            >(error.kind()),
        },
{
    let files = container.get_section_files();
    if files.len() == 0 {
        return Err(
            HwpError::InvalidHwpxStructure {
                reason: "No section files found in Contents/".to_owned(),
            },
        );
    }
    let ghost data = container.source();
    let ghost paths = files.deep_view();
    let mut sections: Vec<Section> = Vec::new();
    let mut i: usize = 0;
    assert(sections.deep_view() =~= Seq::<SectionModel>::empty());
    while i < files.len()
        invariant
            i <= files.len(),
            files.len() > 0,
            paths == files.deep_view(),
            paths == section_files_of(old(container).names()),
            data == container.source(),
            data == old(container).source(),
            sections_upto(data, paths, i as int) == Ok::<Seq<SectionModel>, ErrorKind>(
                sections.deep_view(),
            ),
        decreases files.len() - i,
    {
        let events = match crate::parser::hwpx::header::read_file_events(
            container,
            files[i].as_str(),
            "Error parsing section XML: ",
        ) {
            Ok(events) => events,
            Err(error) => {
                proof {
                    lemma_first_error_stays(data, paths, i + 1, paths.len() as int);
                }
                return Err(error);
            },
        };
        let section = parse_events(&events, (i % 65536) as u16);
        let ghost before = sections;
        sections.push(section);
        proof {
            lemma_deep_view_push(before, sections, section);
        }
        i += 1;
    }
    Ok(BodyText { sections })
}

} // verus!
