//! Tables as text: the grid of a table as a Markdown table or as an HTML
//! table.
//!
//! A Markdown table has a cell for every position that the table declares,
//! and cannot say that a cell spans several of them: the slots that a span
//! reaches show a blank. An HTML table has the cells in the rows of their
//! corners, with their spans.

use vstd::prelude::*;
use crate::document::bodytext::{
    lemma_deep_view_push, CellParagraphModel, CellPart, CellPartModel, Table, TableCell,
    TableCellModel, TableModel,
};
use crate::document::HwpDocument;
use crate::number::{decimal, push_decimal};
use crate::text::{
    blank, chars_of, is_blank, join, joined, lemma_texts_push, push_range, push_str, replace,
    replaced, string_of, texts_of,
};
use crate::viewer::markdown::common::{convert_hwpx_image_to_markdown, referenced_image_markdown};
use crate::viewer::markdown::grid::{
    any_anchor, declared_place, fills_grid, has_anchor, lemma_anchors_are_cells,
    lemma_full_grid_has_no_blank, lemma_one_cell_grid, materialize, materialized, rectangular, Place, Slot,
};
use crate::viewer::markdown::MarkdownOptions;
use crate::viewer::segmenter::{break_token, segment_chars, segmented};

verus! {

/// The Markdown of a reference to an image in `document`, where the
/// document holds the image.
pub open spec fn image_text(document: &HwpDocument, options: &MarkdownOptions, identifier: Seq<char>)
    -> Option<Seq<char>> {
    referenced_image_markdown(
        document.bin_data@,
        document.doc_info.bin_data.deep_view(),
        identifier,
        *options,
    )
}

/// What one part of a cell adds to the content of the cell in an HTML
/// table: a text that is not blank, as it stands; an image that the
/// document holds, as Markdown.
pub open spec fn part_content(part: CellPartModel, document: &HwpDocument, options: &MarkdownOptions)
    -> Option<Seq<char>> {
    match part {
        CellPartModel::TextRun { text, markers } => if is_blank(text) {
            None
        } else {
            Some(text)
        },
        CellPartModel::ImageRef { identifier } => image_text(document, options, identifier),
    }
}

/// What the first `n` parts of a paragraph add to the content of a cell in
/// an HTML table.
pub open spec fn paragraph_contents(
    parts: Seq<CellPartModel>,
    n: int,
    document: &HwpDocument,
    options: &MarkdownOptions,
) -> Seq<Seq<char>>
    decreases n,
{
    if n <= 0 {
        Seq::empty()
    } else {
        let before = paragraph_contents(parts, n - 1, document, options);
        match part_content(parts[n - 1], document, options) {
            Some(text) => before.push(text),
            None => before,
        }
    }
}

/// What the first `n` paragraphs of a cell add to its content in an HTML
/// table.
pub open spec fn cell_contents(
    paragraphs: Seq<CellParagraphModel>,
    n: int,
    document: &HwpDocument,
    options: &MarkdownOptions,
) -> Seq<Seq<char>>
    decreases n,
{
    if n <= 0 {
        Seq::empty()
    } else {
        cell_contents(paragraphs, n - 1, document, options) + paragraph_contents(
            paragraphs[n - 1].parts,
            paragraphs[n - 1].parts.len() as int,
            document,
            options,
        )
    }
}

/// The content of a cell in an HTML table: its texts that are not blank
/// and its images, in order, with a space between each two.
pub open spec fn cell_content(cell: TableCellModel, document: &HwpDocument, options: &MarkdownOptions)
    -> Seq<char> {
    joined(cell_contents(cell.paragraphs, cell.paragraphs.len() as int, document, options), " "@)
}

/// The content of a cell for an HTML table.
pub fn get_cell_content(cell: &TableCell, document: &HwpDocument, options: &MarkdownOptions) -> (content:
    String)
    ensures
        content@ == cell_content(cell@, document, options),
{
    let mut parts: Vec<Vec<char>> = Vec::new();
    let ghost paragraphs = cell@.paragraphs;
    let mut i: usize = 0;
    while i < cell.paragraphs.len()
        invariant
            i <= cell.paragraphs.len(),
            paragraphs == cell@.paragraphs,
            texts_of(parts@) == cell_contents(paragraphs, i as int, document, options),
        decreases cell.paragraphs.len() - i,
    {
        let paragraph = &cell.paragraphs[i];
        let ghost model = paragraphs[i as int].parts;
        let ghost done = texts_of(parts@);
        let mut k: usize = 0;
        while k < paragraph.parts.len()
            invariant
                k <= paragraph.parts.len(),
                model == paragraph@.parts,
                texts_of(parts@) == done + paragraph_contents(model, k as int, document, options),
            decreases paragraph.parts.len() - k,
        {
            let ghost before = texts_of(parts@);
            match &paragraph.parts[k] {
                CellPart::TextRun { text, markers } => {
                    let chars = chars_of(text.as_str());
                    if !blank(&chars) {
                        parts.push(chars);
                        assert(texts_of(parts@) =~= before.push(text@));
                    }
                },
                CellPart::ImageRef { identifier } => {
                    match convert_hwpx_image_to_markdown(identifier.as_str(), document, options) {
                        Some(markdown) => {
                            parts.push(chars_of(markdown.as_str()));
                            assert(texts_of(parts@) =~= before.push(markdown@));
                        },
                        None => {},
                    }
                },
            }
            k += 1;
        }
        i += 1;
    }
    let content = join(&parts, " ");
    string_of(&content)
}

/// The texts of the first `n` parts of a paragraph, each with the break
/// token at its breaks, one behind the other.
pub open spec fn runs_text(parts: Seq<CellPartModel>, n: int, token: Seq<char>) -> Seq<char>
    decreases n,
{
    if n <= 0 {
        Seq::empty()
    } else {
        let before = runs_text(parts, n - 1, token);
        match parts[n - 1] {
            CellPartModel::TextRun { text, markers } => before + segmented(text, markers, token),
            CellPartModel::ImageRef { identifier } => before,
        }
    }
}

/// The images of the first `n` parts of a paragraph as Markdown, one
/// behind the other.
pub open spec fn images_text(
    parts: Seq<CellPartModel>,
    n: int,
    document: &HwpDocument,
    options: &MarkdownOptions,
) -> Seq<char>
    decreases n,
{
    if n <= 0 {
        Seq::empty()
    } else {
        let before = images_text(parts, n - 1, document, options);
        match parts[n - 1] {
            CellPartModel::TextRun { text, markers } => before,
            CellPartModel::ImageRef { identifier } => match image_text(
                document,
                options,
                identifier,
            ) {
                Some(markdown) => before + markdown,
                None => before,
            },
        }
    }
}

/// What a paragraph adds to the text of a cell in a Markdown table: its
/// texts, unless together they are blank, and then its images.
pub open spec fn paragraph_text(
    paragraph: CellParagraphModel,
    document: &HwpDocument,
    options: &MarkdownOptions,
) -> Seq<char> {
    let runs = runs_text(
        paragraph.parts,
        paragraph.parts.len() as int,
        break_token(options.html()),
    );
    let images = images_text(paragraph.parts, paragraph.parts.len() as int, document, options);
    if is_blank(runs) {
        images
    } else {
        runs + images
    }
}

/// What the first `n` paragraphs of a cell add to its text in a Markdown
/// table, with a space behind each paragraph but the last of the cell.
pub open spec fn paragraphs_text(
    paragraphs: Seq<CellParagraphModel>,
    n: int,
    document: &HwpDocument,
    options: &MarkdownOptions,
) -> Seq<char>
    decreases n,
{
    if n <= 0 {
        Seq::empty()
    } else {
        let before = paragraphs_text(paragraphs, n - 1, document, options);
        let here = paragraph_text(paragraphs[n - 1], document, options);
        if n < paragraphs.len() {
            before + here + seq![' ']
        } else {
            before + here
        }
    }
}

/// The text of a cell in a Markdown table: what its paragraphs add, with
/// every `|` escaped; a single space where they add nothing.
pub open spec fn cell_markdown(
    cell: TableCellModel,
    document: &HwpDocument,
    options: &MarkdownOptions,
) -> Seq<char> {
    let text = paragraphs_text(cell.paragraphs, cell.paragraphs.len() as int, document, options);
    if text.len() == 0 {
        seq![' ']
    } else {
        replaced(text, '|', seq!['\\', '|'])
    }
}

/// The text of a cell for a Markdown table. Breaks inside its texts become
/// `<br>` where the caller asks for HTML, and a space where not.
pub fn fill_cell_content(cell: &TableCell, document: &HwpDocument, options: &MarkdownOptions) -> (content:
    String)
    ensures
        content@ == cell_markdown(cell@, document, options),
{
    let html = options.wants_html();
    let mut text: Vec<char> = Vec::new();
    let ghost paragraphs = cell@.paragraphs;
    let mut i: usize = 0;
    while i < cell.paragraphs.len()
        invariant
            i <= cell.paragraphs.len(),
            paragraphs == cell@.paragraphs,
            html == options.html(),
            text@ == paragraphs_text(paragraphs, i as int, document, options),
        decreases cell.paragraphs.len() - i,
    {
        let paragraph = &cell.paragraphs[i];
        let ghost model = paragraphs[i as int].parts;
        let mut runs: Vec<char> = Vec::new();
        let mut images: Vec<char> = Vec::new();
        let mut k: usize = 0;
        while k < paragraph.parts.len()
            invariant
                k <= paragraph.parts.len(),
                model == paragraph@.parts,
                html == options.html(),
                runs@ == runs_text(model, k as int, break_token(html)),
                images@ == images_text(model, k as int, document, options),
            decreases paragraph.parts.len() - k,
        {
            match &paragraph.parts[k] {
                CellPart::TextRun { text, markers } => {
                    let chars = chars_of(text.as_str());
                    let segments = segment_chars(&chars, markers, html);
                    push_range(&mut runs, &segments, 0, segments.len());
                },
                CellPart::ImageRef { identifier } => {
                    match convert_hwpx_image_to_markdown(identifier.as_str(), document, options) {
                        Some(markdown) => {
                            push_str(&mut images, markdown.as_str());
                        },
                        None => {},
                    }
                },
            }
            k += 1;
        }
        if !blank(&runs) {
            push_range(&mut text, &runs, 0, runs.len());
        }
        push_range(&mut text, &images, 0, images.len());
        if i + 1 < cell.paragraphs.len() {
            text.push(' ');
        }
        i += 1;
    }
    proof {
        reveal_strlit(" ");
        reveal_strlit("\\|");
        assert("\\|"@ =~= seq!['\\', '|']);
    }
    if text.len() == 0 {
        " ".to_owned()
    } else {
        let escaped = replace(&text, '|', "\\|");
        string_of(&escaped)
    }
}

/// What a slot of the grid shows in a Markdown table: the text of the cell
/// that has its corner there; a blank where the span of a cell reaches;
/// nothing where the slot is free.
pub open spec fn slot_markdown(
    table: TableModel,
    slot: Slot,
    document: &HwpDocument,
    options: &MarkdownOptions,
) -> Option<Seq<char>> {
    match slot {
        Slot::Anchor(i) => Some(cell_markdown(table.cells[i as int], document, options)),
        Slot::Merged => Some(seq![' ']),
        Slot::Free => None,
    }
}

/// The grid of a table for Markdown: for each position that the table
/// declares, what the slot shows.
pub open spec fn markdown_grid_of(table: TableModel, document: &HwpDocument, options: &MarkdownOptions)
    -> Seq<Seq<Option<Seq<char>>>> {
    let grid = materialized(table);
    Seq::new(
        grid.len(),
        |y: int| Seq::new(grid[y].len(), |x: int| slot_markdown(table, grid[y][x], document, options)),
    )
}

/// Resolves a table into its grid for Markdown: a text for every position
/// that a cell reaches, and none for a position that no cell reaches.
pub fn markdown_grid(table: &Table, document: &HwpDocument, options: &MarkdownOptions) -> (grid: Vec<
    Vec<Option<String>>,
>)
    ensures
        grid.deep_view() == markdown_grid_of(table@, document, options),
        grid@.len() == table.row_count,
        forall|y: int| 0 <= y < grid@.len() ==> (#[trigger] grid@[y])@.len() == table.col_count,
{
    let slots = materialize(table);
    let ghost want = markdown_grid_of(table@, document, options);
    let ghost model = materialized(table@);
    let rows = table.row_count as usize;
    let cols = table.col_count as usize;
    let mut grid: Vec<Vec<Option<String>>> = Vec::new();
    let mut y: usize = 0;
    while y < rows
        invariant
            y <= rows,
            rows == table.row_count,
            cols == table.col_count,
            model == materialized(table@),
            slots.deep_view() == model,
            rectangular(model, rows as int, cols as int),
            want == markdown_grid_of(table@, document, options),
            grid@.len() == y,
            forall|b: int| 0 <= b < y ==> (#[trigger] grid@[b])@.len() == cols,
            forall|b: int| 0 <= b < y ==> (#[trigger] grid@[b]).deep_view() == want[b],
        decreases rows - y,
    {
        let mut line: Vec<Option<String>> = Vec::new();
        let mut x: usize = 0;
        while x < cols
            invariant
                y < rows,
                x <= cols,
                rows == table.row_count,
                cols == table.col_count,
                    model == materialized(table@),
                slots.deep_view() == model,
                rectangular(model, rows as int, cols as int),
                want == markdown_grid_of(table@, document, options),
                line@.len() == x,
                forall|a: int| 0 <= a < x ==> (#[trigger] line@[a]).deep_view() == want[y as int][a],
            decreases cols - x,
        {
            assert(model[y as int].len() == cols);
            let shown: Option<String> = match slots[y][x] {
                Slot::Anchor(i) => {
                    proof {
                        assert(table@.cells.len() == table.cells.len());
                        lemma_anchors_are_cells(table@, y as int, x as int);
                    }
                    Some(fill_cell_content(&table.cells[i], document, options))
                },
                Slot::Merged => {
                    proof {
                        reveal_strlit(" ");
                    }
                    Some(" ".to_owned())
                },
                Slot::Free => None,
            };
            line.push(shown);
            x += 1;
        }
        grid.push(line);
        y += 1;
    }
    grid
}

/// A cell of an HTML table: its content and the spans that it declares.
#[derive(Debug, Clone, PartialEq, Eq)]
pub struct HtmlCell {
    pub content: String,
    pub col_span: u16,
    pub row_span: u16,
}

/// What an `HtmlCell` holds, as contracts see it.
pub struct HtmlCellModel {
    pub content: Seq<char>,
    pub col_span: u16,
    pub row_span: u16,
}

impl View for HtmlCell {
    type V = HtmlCellModel;

    open spec fn view(&self) -> HtmlCellModel {
        HtmlCellModel { content: self.content@, col_span: self.col_span, row_span: self.row_span }
    }
}

impl DeepView for HtmlCell {
    type V = HtmlCellModel;

    open spec fn deep_view(&self) -> HtmlCellModel {
        self@
    }
}

/// The cell of an HTML table that a table cell becomes.
pub open spec fn html_cell(cell: TableCellModel, document: &HwpDocument, options: &MarkdownOptions)
    -> HtmlCellModel {
    HtmlCellModel {
        content: cell_content(cell, document, options),
        col_span: cell.col_span,
        row_span: cell.row_span,
    }
}

/// The cells that have their corner in the first `n` slots of the row `y`
/// of the grid, from left to right.
pub open spec fn row_anchors(
    table: TableModel,
    grid: Seq<Seq<Slot>>,
    y: int,
    n: int,
    document: &HwpDocument,
    options: &MarkdownOptions,
) -> Seq<HtmlCellModel>
    decreases n,
{
    if n <= 0 {
        Seq::empty()
    } else {
        let before = row_anchors(table, grid, y, n - 1, document, options);
        match grid[y][n - 1] {
            Slot::Anchor(i) => before.push(html_cell(table.cells[i as int], document, options)),
            _ => before,
        }
    }
}

/// One of the cells has content that is not blank.
pub open spec fn has_content(cells: Seq<HtmlCellModel>) -> bool {
    exists|i: int| 0 <= i < cells.len() && !is_blank((#[trigger] cells[i]).content)
}

/// The rows of an HTML table that the first `n` rows of the grid give: a
/// row of the grid gives the cells that have their corner in it, unless
/// none of them has content that is not blank.
pub open spec fn html_rows_upto(
    table: TableModel,
    grid: Seq<Seq<Slot>>,
    n: int,
    document: &HwpDocument,
    options: &MarkdownOptions,
) -> Seq<Seq<HtmlCellModel>>
    decreases n,
{
    if n <= 0 {
        Seq::empty()
    } else {
        let before = html_rows_upto(table, grid, n - 1, document, options);
        let row = row_anchors(table, grid, n - 1, grid[n - 1].len() as int, document, options);
        if has_content(row) {
            before.push(row)
        } else {
            before
        }
    }
}

/// The rows of a table for HTML.
pub open spec fn html_rows_of(table: TableModel, document: &HwpDocument, options: &MarkdownOptions)
    -> Seq<Seq<HtmlCellModel>> {
    html_rows_upto(table, materialized(table), table.row_count as int, document, options)
}

/// Resolves a table into its rows for HTML: in each row the cells that
/// have their corner there, with their spans. Rows without content are
/// left out.
pub fn html_rows(table: &Table, document: &HwpDocument, options: &MarkdownOptions) -> (rows: Vec<
    Vec<HtmlCell>,
>)
    ensures
        rows.deep_view() == html_rows_of(table@, document, options),
{
    let slots = materialize(table);
    let ghost model = materialized(table@);
    let row_count = table.row_count as usize;
    let cols = table.col_count as usize;
    let mut rows: Vec<Vec<HtmlCell>> = Vec::new();
    let mut y: usize = 0;
    while y < row_count
        invariant
            y <= row_count,
            row_count == table.row_count,
            cols == table.col_count,
            model == materialized(table@),
            slots.deep_view() == model,
            rectangular(model, row_count as int, cols as int),
            rows.deep_view() == html_rows_upto(table@, model, y as int, document, options),
        decreases row_count - y,
    {
        let mut row: Vec<HtmlCell> = Vec::new();
        let mut content = false;
        let mut x: usize = 0;
        while x < cols
            invariant
                y < row_count,
                x <= cols,
                row_count == table.row_count,
                cols == table.col_count,
                model == materialized(table@),
                slots.deep_view() == model,
                rectangular(model, row_count as int, cols as int),
                row.deep_view() == row_anchors(table@, model, y as int, x as int, document, options),
                content == has_content(row.deep_view()),
            decreases cols - x,
        {
            match slots[y][x] {
                Slot::Anchor(i) => {
                    proof {
                        assert(table@.cells.len() == table.cells.len());
                        lemma_anchors_are_cells(table@, y as int, x as int);
                    }
                    let cell = &table.cells[i];
                    let text = get_cell_content(cell, document, options);
                    let chars = chars_of(text.as_str());
                    let filled = !blank(&chars);
                    let html = HtmlCell {
                        content: text,
                        col_span: cell.col_span,
                        row_span: cell.row_span,
                    };
                    let ghost before = row;
                    row.push(html);
                    proof {
                        lemma_deep_view_push(before, row, html);
                        let old_cells = before.deep_view();
                        let new_cells = row.deep_view();
                        if has_content(old_cells) {
                            let k = choose|k: int|
                                0 <= k < old_cells.len() && !is_blank(
                                    (#[trigger] old_cells[k]).content,
                                );
                            assert(new_cells[k] == old_cells[k]);
                        }
                        if filled {
                            assert(!is_blank(new_cells[new_cells.len() - 1].content));
                        }
                    }
                    content = content || filled;
                },
                _ => {},
            }
            x += 1;
        }
        if content {
            let ghost before = rows;
            rows.push(row);
            proof {
                lemma_deep_view_push(before, rows, row);
            }
        }
        y += 1;
    }
    rows
}

/// The span attributes of a cell of an HTML table: one for each span that
/// is greater than 1.
pub open spec fn span_attributes(col_span: u16, row_span: u16) -> Seq<char> {
    let col = if col_span > 1 {
        " colspan=\""@ + decimal(col_span as nat) + "\""@
    } else {
        Seq::empty()
    };
    let row = if row_span > 1 {
        " rowspan=\""@ + decimal(row_span as nat) + "\""@
    } else {
        Seq::empty()
    };
    col + row
}

/// The HTML of one cell: its content, with every line separator as a line
/// break, in a `td` element with its span attributes.
pub open spec fn td_html(cell: HtmlCellModel) -> Seq<char> {
    "    <td"@ + span_attributes(cell.col_span, cell.row_span) + ">"@ + replaced(
        cell.content,
        '\n',
        "<br>"@,
    ) + "</td>\n"@
}

/// The HTML of the first `n` cells of a row.
pub open spec fn tds_html(row: Seq<HtmlCellModel>, n: int) -> Seq<char>
    decreases n,
{
    if n <= 0 {
        Seq::empty()
    } else {
        tds_html(row, n - 1) + td_html(row[n - 1])
    }
}

/// The HTML of one row.
pub open spec fn tr_html(row: Seq<HtmlCellModel>) -> Seq<char> {
    "  <tr>\n"@ + tds_html(row, row.len() as int) + "  </tr>\n"@
}

/// The HTML of the first `n` rows.
pub open spec fn trs_html(rows: Seq<Seq<HtmlCellModel>>, n: int) -> Seq<char>
    decreases n,
{
    if n <= 0 {
        Seq::empty()
    } else {
        trs_html(rows, n - 1) + tr_html(rows[n - 1])
    }
}

/// The HTML of a table of the given rows.
pub open spec fn html_table(rows: Seq<Seq<HtmlCellModel>>) -> Seq<char> {
    "\n<table border=\"1\" cellpadding=\"5\" cellspacing=\"0\" style=\"border-collapse: collapse;\">\n"@
        + trs_html(rows, rows.len() as int) + "</table>\n"@
}

/// Appends the span attributes of a cell.
fn push_span_attributes(out: &mut Vec<char>, col_span: u16, row_span: u16)
    ensures
        final(out)@ == old(out)@ + span_attributes(col_span, row_span),
{
    let mut attributes: Vec<char> = Vec::new();
    if col_span > 1 {
        push_str(&mut attributes, " colspan=\"");
        push_decimal(&mut attributes, col_span as u64);
        push_str(&mut attributes, "\"");
    }
    if row_span > 1 {
        push_str(&mut attributes, " rowspan=\"");
        push_decimal(&mut attributes, row_span as u64);
        push_str(&mut attributes, "\"");
    }
    push_range(out, &attributes, 0, attributes.len());
}

/// Appends the HTML of one cell.
fn push_td(out: &mut Vec<char>, cell: &HtmlCell)
    ensures
        final(out)@ == old(out)@ + td_html(cell@),
{
    let mut td: Vec<char> = Vec::new();
    push_str(&mut td, "    <td");
    push_span_attributes(&mut td, cell.col_span, cell.row_span);
    push_str(&mut td, ">");
    let content = chars_of(cell.content.as_str());
    let broken = replace(&content, '\n', "<br>");
    push_range(&mut td, &broken, 0, broken.len());
    push_str(&mut td, "</td>\n");
    push_range(out, &td, 0, td.len());
}

/// Appends the HTML of one row.
fn push_tr(out: &mut Vec<char>, row: &Vec<HtmlCell>)
    ensures
        final(out)@ == old(out)@ + tr_html(row.deep_view()),
{
    let ghost cells = row.deep_view();
    let mut tr: Vec<char> = Vec::new();
    push_str(&mut tr, "  <tr>\n");
    let ghost opened = tr@;
    let mut x: usize = 0;
    while x < row.len()
        invariant
            x <= row.len(),
            cells == row.deep_view(),
            tr@ == opened + tds_html(cells, x as int),
        decreases row.len() - x,
    {
        push_td(&mut tr, &row[x]);
        x += 1;
    }
    push_str(&mut tr, "  </tr>\n");
    push_range(out, &tr, 0, tr.len());
}

/// Renders the rows of a table as an HTML table.
pub fn render_html_rows(rows: &Vec<Vec<HtmlCell>>) -> (html: String)
    ensures
        html@ == html_table(rows.deep_view()),
{
    let ghost model = rows.deep_view();
    let mut out: Vec<char> = Vec::new();
    push_str(
        &mut out,
        "\n<table border=\"1\" cellpadding=\"5\" cellspacing=\"0\" style=\"border-collapse: collapse;\">\n",
    );
    let ghost head = out@;
    let mut y: usize = 0;
    while y < rows.len()
        invariant
            y <= rows.len(),
            model == rows.deep_view(),
            out@ == head + trs_html(model, y as int),
        decreases rows.len() - y,
    {
        push_tr(&mut out, &rows[y]);
        y += 1;
    }
    push_str(&mut out, "</table>\n");
    string_of(&out)
}

/// Converts a table to an HTML table, which can say which cells span
/// several rows or columns.
pub fn convert_table_to_html(table: &Table, document: &HwpDocument, options: &MarkdownOptions) -> (html:
    String)
    ensures
        html@ == html_table(html_rows_of(table@, document, options)),
{
    let rows = html_rows(table, document, options);
    render_html_rows(&rows)
}

/// What a slot of the Markdown grid shows: its text, or a blank where it
/// has none.
pub open spec fn shown(slot: Option<Seq<char>>) -> Seq<char> {
    match slot {
        Some(text) => text,
        None => seq![' '],
    }
}

/// What the slots of one row of the Markdown grid show.
pub open spec fn row_texts(row: Seq<Option<Seq<char>>>) -> Seq<Seq<char>> {
    Seq::new(row.len(), |x: int| shown(row[x]))
}

/// The line of one row of a Markdown table.
pub open spec fn row_line(row: Seq<Option<Seq<char>>>) -> Seq<char> {
    "| "@ + joined(row_texts(row), " | "@) + " |"@
}

/// The line that separates the first row of a Markdown table from the
/// others.
pub open spec fn separator_line(cols: int) -> Seq<char> {
    "|"@ + joined(Seq::new(cols as nat, |x: int| "---"@), "|"@) + "|"@
}

/// The lines of a Markdown table up to its row `n`: an empty line, then
/// one line for each row, with the separator line behind the first.
pub open spec fn table_lines(grid: Seq<Seq<Option<Seq<char>>>>, cols: int, n: int) -> Seq<Seq<char>>
    decreases n,
{
    if n <= 0 {
        seq![Seq::empty()]
    } else {
        let before = table_lines(grid, cols, n - 1).push(row_line(grid[n - 1]));
        if n == 1 {
            before.push(separator_line(cols))
        } else {
            before
        }
    }
}

/// The Markdown of a table: its lines and an empty line behind them, with
/// a line separator between each two.
pub open spec fn markdown_table(grid: Seq<Seq<Option<Seq<char>>>>, cols: int) -> Seq<char> {
    joined(table_lines(grid, cols, grid.len() as int).push(Seq::empty()), "\n"@)
}

/// Renders the grid of a table as a Markdown table of `cols` columns.
pub fn render_markdown_grid(grid: &Vec<Vec<Option<String>>>, cols: usize) -> (markdown: String)
    ensures
        markdown@ == markdown_table(grid.deep_view(), cols as int),
{
    let ghost model = grid.deep_view();
    let mut lines: Vec<Vec<char>> = Vec::new();
    lines.push(Vec::new());
    let mut y: usize = 0;
    while y < grid.len()
        invariant
            y <= grid.len(),
            model == grid.deep_view(),
            texts_of(lines@) == table_lines(model, cols as int, y as int),
        decreases grid.len() - y,
    {
        let row = &grid[y];
        let ghost cells = model[y as int];
        let mut texts: Vec<Vec<char>> = Vec::new();
        let mut x: usize = 0;
        while x < row.len()
            invariant
                x <= row.len(),
                cells == row.deep_view(),
                texts_of(texts@) == row_texts(cells).take(x as int),
            decreases row.len() - x,
        {
            let text = match &row[x] {
                Some(text) => chars_of(text.as_str()),
                None => {
                    let mut blank_text: Vec<char> = Vec::new();
                    blank_text.push(' ');
                    blank_text
                },
            };
            proof {
                lemma_texts_push(texts@, text);
            }
            texts.push(text);
            x += 1;
        }
        assert(row_texts(cells).take(row@.len() as int) =~= row_texts(cells));
        let mut line: Vec<char> = Vec::new();
        push_str(&mut line, "| ");
        let inner = join(&texts, " | ");
        push_range(&mut line, &inner, 0, inner.len());
        assert(inner@.subrange(0, inner@.len() as int) =~= inner@);
        push_str(&mut line, " |");
        proof {
            lemma_texts_push(lines@, line);
        }
        lines.push(line);
        if y == 0 {
            let mut dashes: Vec<Vec<char>> = Vec::new();
            let mut x: usize = 0;
            while x < cols
                invariant
                    x <= cols,
                    texts_of(dashes@) == Seq::new(x as nat, |k: int| "---"@),
                decreases cols - x,
            {
                let dash = chars_of("---");
                proof {
                    lemma_texts_push(dashes@, dash);
                }
                dashes.push(dash);
                x += 1;
            }
            let mut separator: Vec<char> = Vec::new();
            push_str(&mut separator, "|");
            let inner = join(&dashes, "|");
            push_range(&mut separator, &inner, 0, inner.len());
            assert(inner@.subrange(0, inner@.len() as int) =~= inner@);
            push_str(&mut separator, "|");
            proof {
                lemma_texts_push(lines@, separator);
            }
            lines.push(separator);
        }
        y += 1;
    }
    let last: Vec<char> = Vec::new();
    proof {
        lemma_texts_push(lines@, last);
    }
    lines.push(last);
    let text = join(&lines, "\n");
    string_of(&text)
}

/// Converts a table to a Markdown table, in which every position that the
/// table declares has a cell of its own.
pub fn convert_table_to_markdown_simple(
    table: &Table,
    document: &HwpDocument,
    options: &MarkdownOptions,
) -> (markdown: String)
    ensures
        markdown@ == markdown_table(
            markdown_grid_of(table@, document, options),
            table.col_count as int,
        ),
{
    let grid = markdown_grid(table, document, options);
    render_markdown_grid(&grid, table.col_count as usize)
}

/// One of the cells spans more than one row or column.
pub open spec fn has_merged_cells(cells: Seq<TableCellModel>) -> bool {
    exists|i: int| 0 <= i < cells.len() && ((#[trigger] cells[i]).col_span > 1 || cells[i].row_span > 1)
}

/// The line that stands for a table that has no grid to show: `label`, the
/// numbers of rows and columns that the table declares, and a closing
/// bracket, between empty lines.
pub open spec fn placeholder(label: Seq<char>, rows: u16, cols: u16) -> Seq<char> {
    "\n\n["@ + label + decimal(rows as nat) + "x"@ + decimal(cols as nat) + "]\n\n"@
}

/// The text that a table renders as.
///
/// A table that declares no row or no column, or in whose grid no cell has
/// a place, renders as a placeholder. Any other table renders as an HTML
/// table where the caller asks for HTML or a cell spans several rows or
/// columns, and as a Markdown table where neither holds.
pub open spec fn table_text(table: TableModel, document: &HwpDocument, options: &MarkdownOptions)
    -> Seq<char> {
    if table.row_count == 0 || table.col_count == 0 {
        placeholder("Table: "@, table.row_count, table.col_count)
    } else if !has_anchor(materialized(table)) {
        placeholder("Empty Table: "@, table.row_count, table.col_count)
    } else if options.html() || has_merged_cells(table.cells) {
        html_table(html_rows_of(table, document, options))
    } else {
        markdown_table(markdown_grid_of(table, document, options), table.col_count as int)
    }
}

fn render_placeholder(label: &str, rows: u16, cols: u16) -> (text: String)
    ensures
        text@ == placeholder(label@, rows, cols),
{
    let mut out: Vec<char> = Vec::new();
    push_str(&mut out, "\n\n[");
    push_str(&mut out, label);
    push_decimal(&mut out, rows as u64);
    push_str(&mut out, "x");
    push_decimal(&mut out, cols as u64);
    push_str(&mut out, "]\n\n");
    string_of(&out)
}

fn any_merged_cell(table: &Table) -> (found: bool)
    ensures
        found == has_merged_cells(table@.cells),
{
    let ghost cells = table@.cells;
    let mut i: usize = 0;
    while i < table.cells.len()
        invariant
            i <= table.cells.len(),
            cells == table@.cells,
            forall|k: int| 0 <= k < i ==> !((#[trigger] cells[k]).col_span > 1 || cells[k].row_span > 1),
        decreases table.cells.len() - i,
    {
        assert(cells[i as int] == table.cells@[i as int]@);
        if table.cells[i].col_span > 1 || table.cells[i].row_span > 1 {
            return true;
        }
        i += 1;
    }
    false
}

/// Converts a table to text: to a Markdown table where Markdown can say
/// what the table holds, to an HTML table where it cannot or the caller
/// asks for HTML, and to a placeholder where the table has no grid to show.
pub fn convert_table_to_markdown(table: &Table, document: &HwpDocument, options: &MarkdownOptions)
    -> (text: String)
    ensures
        text@ == table_text(table@, document, options),
{
    if table.row_count == 0 || table.col_count == 0 {
        return render_placeholder("Table: ", table.row_count, table.col_count);
    }
    let grid = materialize(table);
    if !any_anchor(&grid) {
        return render_placeholder("Empty Table: ", table.row_count, table.col_count);
    }
    if options.wants_html() || any_merged_cell(table) {
        convert_table_to_html(table, document, options)
    } else {
        convert_table_to_markdown_simple(table, document, options)
    }
}

/// A Markdown table of `n` rows has an empty line, the line of the first
/// row, the separator line, and then one line for each further row.
pub proof fn lemma_table_lines(grid: Seq<Seq<Option<Seq<char>>>>, cols: int, n: int)
    requires
        1 <= n,
    ensures
        table_lines(grid, cols, n).len() == n + 2,
        table_lines(grid, cols, n)[0] == Seq::<char>::empty(),
        table_lines(grid, cols, n)[1] == row_line(grid[0]),
        table_lines(grid, cols, n)[2] == separator_line(cols),
        forall|y: int| 1 <= y < n ==> table_lines(grid, cols, n)[y + 2] == row_line(#[trigger] grid[y]),
    decreases n,
{
    if n > 1 {
        lemma_table_lines(grid, cols, n - 1);
        let now = table_lines(grid, cols, n);
        assert forall|y: int| 1 <= y < n implies now[y + 2] == row_line(#[trigger] grid[y]) by {
        }
    } else {
        assert(table_lines(grid, cols, 0) =~= seq![Seq::<char>::empty()]);
    }
}

/// Where the cells of a table fill its grid, the Markdown grid has as many
/// rows as the table declares, each of as many cells as it declares
/// columns; every cell shows the text of a table cell that declares its
/// position, none a blank that stands for no cell; and the table renders
/// as one line for each row and the separator line, between two empty
/// lines.
pub proof fn lemma_full_grid_markdown(
    table: TableModel,
    document: &HwpDocument,
    options: &MarkdownOptions,
    y: int,
    x: int,
)
    requires
        fills_grid(table),
        table.cells.len() <= usize::MAX,
        0 <= y < table.row_count,
        0 <= x < table.col_count,
    ensures
        markdown_grid_of(table, document, options).len() == table.row_count,
        markdown_grid_of(table, document, options)[y].len() == table.col_count,
        exists|i: int|
            0 <= i < table.cells.len() && declared_place(#[trigger] table.cells[i]) == Some(
                Place { row: y, col: x },
            ) && markdown_grid_of(table, document, options)[y][x] == Some(
                cell_markdown(table.cells[i], document, options),
            ),
        table_lines(
            markdown_grid_of(table, document, options),
            table.col_count as int,
            table.row_count as int,
        ).len() == table.row_count + 2,
{
    lemma_full_grid_has_no_blank(table, y, x);
    lemma_table_lines(
        markdown_grid_of(table, document, options),
        table.col_count as int,
        table.row_count as int,
    );
}

/// A table of two rows and two columns with one cell, which stands at the
/// top left and spans both rows and both columns: the grid has the corner
/// of the cell and three merged slots. Where the cell has content, the
/// table has one row for HTML, of that one cell, and renders as one `td`
/// element with both span attributes; the row is not left out for the three
/// slots in which no cell has its corner.
pub proof fn lemma_one_cell_over_four_slots(
    table: TableModel,
    document: &HwpDocument,
    options: &MarkdownOptions,
)
    requires
        table.row_count == 2,
        table.col_count == 2,
        table.cells.len() == 1,
        declared_place(table.cells[0]) == Some(Place { row: 0, col: 0 }),
        table.cells[0].row_span == 2,
        table.cells[0].col_span == 2,
        !is_blank(cell_content(table.cells[0], document, options)),
    ensures
        materialized(table) == seq![
            seq![Slot::Anchor(0), Slot::Merged],
            seq![Slot::Merged, Slot::Merged],
        ],
        html_rows_of(table, document, options) == seq![
            seq![html_cell(table.cells[0], document, options)],
        ],
        html_table(html_rows_of(table, document, options)) == "\n<table border=\"1\" cellpadding=\"5\" cellspacing=\"0\" style=\"border-collapse: collapse;\">\n"@
            + ("  <tr>\n"@ + ("    <td"@ + (" colspan=\""@ + seq!['2'] + "\""@ + (" rowspan=\""@
            + seq!['2'] + "\""@)) + ">"@ + replaced(
            cell_content(table.cells[0], document, options),
            '\n',
            "<br>"@,
        ) + "</td>\n"@) + "  </tr>\n"@) + "</table>\n"@,
{
    let cells = table.cells;
    lemma_one_cell_grid(table);
    let want = seq![seq![Slot::Anchor(0), Slot::Merged], seq![Slot::Merged, Slot::Merged]];
    // the rows for HTML
    let cell = html_cell(cells[0], document, options);
    let top0 = row_anchors(table, want, 0, 0, document, options);
    let top1 = row_anchors(table, want, 0, 1, document, options);
    let top2 = row_anchors(table, want, 0, 2, document, options);
    assert(top0 =~= Seq::<HtmlCellModel>::empty());
    assert(top1 =~= seq![cell]);
    assert(top2 =~= seq![cell]);
    assert(!is_blank(top2[0].content));
    assert(has_content(top2));
    let low0 = row_anchors(table, want, 1, 0, document, options);
    let low1 = row_anchors(table, want, 1, 1, document, options);
    let low2 = row_anchors(table, want, 1, 2, document, options);
    assert(low0 =~= Seq::<HtmlCellModel>::empty());
    assert(low1 =~= low0);
    assert(low2 =~= low0);
    assert(!has_content(low2));
    let rows0 = html_rows_upto(table, want, 0, document, options);
    let rows1 = html_rows_upto(table, want, 1, document, options);
    let rows2 = html_rows_upto(table, want, 2, document, options);
    assert(rows0 =~= Seq::<Seq<HtmlCellModel>>::empty());
    assert(rows1 =~= seq![seq![cell]]);
    assert(rows2 =~= rows1);
    let rows = html_rows_of(table, document, options);
    assert(rows == seq![seq![cell]]);
    // the text
    assert(decimal(2) =~= seq!['2']);
    assert(tds_html(rows[0], 0) =~= Seq::<char>::empty());
    assert(tds_html(rows[0], 1) =~= td_html(cell));
    assert(trs_html(rows, 0) =~= Seq::<char>::empty());
    assert(trs_html(rows, 1) =~= tr_html(rows[0]));
}

} // verus!
