//! The body of a document: sections of paragraphs, whose records are text
//! runs, tables and image references.
//!
//! Each type has a view that holds its text as sequences of characters and
//! its lists as sequences; contracts speak of the views.

use vstd::prelude::*;

verus! {

/// The two kinds of break that a marker can stand for.
#[derive(Debug, Clone, Copy, PartialEq, Eq, Structural)]
pub enum BreakKind {
    ParagraphBreak,
    LineBreak,
}

/// A break that is recorded beside a text, not in it: the position in the
/// text, counted in characters from 0, and the kind of break.
///
/// Markers come in any order and may share a position. A position equal to
/// the length of the text is a break at its end.
#[derive(Debug, Clone, Copy, PartialEq, Eq, Structural)]
pub struct BreakMarker {
    pub offset: usize,
    pub kind: BreakKind,
}

/// One part of what a table cell holds.
#[derive(Debug, Clone, PartialEq, Eq)]
pub enum CellPart {
    /// A text with its break markers.
    TextRun { text: String, markers: Vec<BreakMarker> },
    /// A reference to an image among the document's binary data.
    ImageRef { identifier: String },
}

/// What a `CellPart` holds, as contracts see it.
pub enum CellPartModel {
    TextRun { text: Seq<char>, markers: Seq<BreakMarker> },
    ImageRef { identifier: Seq<char> },
}

impl View for CellPart {
    type V = CellPartModel;

    open spec fn view(&self) -> CellPartModel {
        match self {
            CellPart::TextRun { text, markers } => CellPartModel::TextRun {
                text: text@,
                markers: markers@,
            },
            CellPart::ImageRef { identifier } => CellPartModel::ImageRef {
                identifier: identifier@,
            },
        }
    }
}

impl DeepView for CellPart {
    type V = CellPartModel;

    open spec fn deep_view(&self) -> CellPartModel {
        self@
    }
}

/// A paragraph inside a table cell: its parts in reading order.
#[derive(Debug, Clone, PartialEq, Eq)]
pub struct CellParagraph {
    pub parts: Vec<CellPart>,
}

/// What a `CellParagraph` holds, as contracts see it.
pub struct CellParagraphModel {
    pub parts: Seq<CellPartModel>,
}

impl View for CellParagraph {
    type V = CellParagraphModel;

    open spec fn view(&self) -> CellParagraphModel {
        CellParagraphModel { parts: self.parts.deep_view() }
    }
}

impl DeepView for CellParagraph {
    type V = CellParagraphModel;

    open spec fn deep_view(&self) -> CellParagraphModel {
        self@
    }
}

/// The number of rows or columns that a span stands for: a span of 0
/// counts as 1.
pub open spec fn span_of(span: u16) -> int {
    if span == 0 {
        1
    } else {
        span as int
    }
}

/// A table cell: what it holds, how many rows and columns it spans, and the
/// grid position of its top-left corner where the document declares one.
///
/// Declared positions count rows and columns from 0. A span of 0 counts
/// as 1.
#[derive(Debug, Clone, PartialEq, Eq)]
pub struct TableCell {
    pub paragraphs: Vec<CellParagraph>,
    pub row_span: u16,
    pub col_span: u16,
    pub row_address: Option<u16>,
    pub col_address: Option<u16>,
}

/// What a `TableCell` holds, as contracts see it.
pub struct TableCellModel {
    pub paragraphs: Seq<CellParagraphModel>,
    pub row_span: u16,
    pub col_span: u16,
    pub row_address: Option<u16>,
    pub col_address: Option<u16>,
}

impl View for TableCell {
    type V = TableCellModel;

    open spec fn view(&self) -> TableCellModel {
        TableCellModel {
            paragraphs: self.paragraphs.deep_view(),
            row_span: self.row_span,
            col_span: self.col_span,
            row_address: self.row_address,
            col_address: self.col_address,
        }
    }
}

impl DeepView for TableCell {
    type V = TableCellModel;

    open spec fn deep_view(&self) -> TableCellModel {
        self@
    }
}

/// A table: the numbers of rows and columns that it declares, and its cells
/// in document order. The declared numbers stand even where the cells do not
/// fill every position.
#[derive(Debug, Clone, PartialEq, Eq)]
pub struct Table {
    pub row_count: u16,
    pub col_count: u16,
    pub cells: Vec<TableCell>,
}

/// What a `Table` holds, as contracts see it.
pub struct TableModel {
    pub row_count: u16,
    pub col_count: u16,
    pub cells: Seq<TableCellModel>,
}

impl View for Table {
    type V = TableModel;

    open spec fn view(&self) -> TableModel {
        TableModel {
            row_count: self.row_count,
            col_count: self.col_count,
            cells: self.cells.deep_view(),
        }
    }
}

impl DeepView for Table {
    type V = TableModel;

    open spec fn deep_view(&self) -> TableModel {
        self@
    }
}

/// One record of a paragraph.
#[derive(Debug, Clone, PartialEq, Eq)]
pub enum ParagraphRecord {
    /// A text with its break markers.
    TextRun { text: String, markers: Vec<BreakMarker> },
    /// A table.
    Table { table: Table },
    /// A reference to an image among the document's binary data.
    ImageRef { identifier: String },
}

/// What a `ParagraphRecord` holds, as contracts see it.
pub enum ParagraphRecordModel {
    TextRun { text: Seq<char>, markers: Seq<BreakMarker> },
    Table { table: TableModel },
    ImageRef { identifier: Seq<char> },
}

impl View for ParagraphRecord {
    type V = ParagraphRecordModel;

    open spec fn view(&self) -> ParagraphRecordModel {
        match self {
            ParagraphRecord::TextRun { text, markers } => ParagraphRecordModel::TextRun {
                text: text@,
                markers: markers@,
            },
            ParagraphRecord::Table { table } => ParagraphRecordModel::Table { table: table@ },
            ParagraphRecord::ImageRef { identifier } => ParagraphRecordModel::ImageRef {
                identifier: identifier@,
            },
        }
    }
}

impl DeepView for ParagraphRecord {
    type V = ParagraphRecordModel;

    open spec fn deep_view(&self) -> ParagraphRecordModel {
        self@
    }
}

/// A paragraph: its records in rendering order.
#[derive(Debug, Clone, PartialEq, Eq)]
pub struct Paragraph {
    pub records: Vec<ParagraphRecord>,
}

/// What a `Paragraph` holds, as contracts see it.
pub struct ParagraphModel {
    pub records: Seq<ParagraphRecordModel>,
}

impl View for Paragraph {
    type V = ParagraphModel;

    open spec fn view(&self) -> ParagraphModel {
        ParagraphModel { records: self.records.deep_view() }
    }
}

impl DeepView for Paragraph {
    type V = ParagraphModel;

    open spec fn deep_view(&self) -> ParagraphModel {
        self@
    }
}

/// A section: its place among the sections of the document, and its
/// paragraphs in document order.
#[derive(Debug, Clone, PartialEq, Eq)]
pub struct Section {
    pub index: u16,
    pub paragraphs: Vec<Paragraph>,
}

/// What a `Section` holds, as contracts see it.
pub struct SectionModel {
    pub index: u16,
    pub paragraphs: Seq<ParagraphModel>,
}

impl View for Section {
    type V = SectionModel;

    open spec fn view(&self) -> SectionModel {
        SectionModel { index: self.index, paragraphs: self.paragraphs.deep_view() }
    }
}

impl DeepView for Section {
    type V = SectionModel;

    open spec fn deep_view(&self) -> SectionModel {
        self@
    }
}

/// The sections of a document, in order.
#[derive(Debug, Clone, PartialEq, Eq)]
pub struct BodyText {
    pub sections: Vec<Section>,
}

/// After a push, the deep view of a vector is the earlier one with the deep
/// view of the new element at its end.
pub proof fn lemma_deep_view_push<T: DeepView>(before: Vec<T>, after: Vec<T>, item: T)
    requires
        after@ == before@.push(item),
    ensures
        after.deep_view() == before.deep_view().push(item.deep_view()),
{
}

/// After an insertion, the deep view of a vector is the earlier one with
/// the deep view of the new element at the same place.
pub proof fn lemma_deep_view_insert<T: DeepView>(before: Vec<T>, after: Vec<T>, at: int, item: T)
    requires
        0 <= at <= before@.len(),
        after@ == before@.insert(at, item),
    ensures
        after.deep_view() == before.deep_view().insert(at, item.deep_view()),
{
}

} // verus!
