use hwp_core::document::{
    BinDataRecord, BinaryDataItem, BreakKind, BreakMarker, CellParagraph, CellPart, FileHeader,
    HwpDocument, Table, TableCell,
};
use hwp_core::viewer::markdown::grid::{materialize, Slot};
use hwp_core::viewer::markdown::table::{
    convert_table_to_html, convert_table_to_markdown, convert_table_to_markdown_simple,
    fill_cell_content, get_cell_content, html_rows, markdown_grid, HtmlCell,
};
use hwp_core::viewer::markdown::MarkdownOptions;

const TABLE_OPEN: &str = "\n<table border=\"1\" cellpadding=\"5\" cellspacing=\"0\" style=\"border-collapse: collapse;\">\n";

fn document() -> HwpDocument {
    HwpDocument::new(FileHeader {
        signature: "HWP Document File".to_string(),
        version: 0x0501_0000,
        document_flags: 0,
        license_flags: 0,
        encrypt_version: 0,
        kogl_country: 0,
        reserved: vec![0; 207],
    })
}

fn options(use_html: Option<bool>) -> MarkdownOptions {
    MarkdownOptions {
        image_output_dir: None,
        use_html,
        include_version: None,
        include_page_info: None,
        failed_images: vec![],
    }
}

fn cell(text: &str, row: Option<u16>, col: Option<u16>) -> TableCell {
    spanned(text, row, col, 1, 1)
}

fn spanned(text: &str, row: Option<u16>, col: Option<u16>, row_span: u16, col_span: u16) -> TableCell {
    TableCell {
        paragraphs: vec![CellParagraph {
            parts: vec![CellPart::TextRun { text: text.to_string(), markers: vec![] }],
        }],
        row_span,
        col_span,
        row_address: row,
        col_address: col,
    }
}

fn table(rows: u16, cols: u16, cells: Vec<TableCell>) -> Table {
    Table { row_count: rows, col_count: cols, cells }
}

#[test]
fn cells_that_fill_the_grid_give_a_markdown_table_without_blanks() {
    let full = table(
        2,
        3,
        vec![
            cell("a", Some(0), Some(0)),
            cell("b", Some(0), Some(1)),
            cell("c", Some(0), Some(2)),
            cell("d", Some(1), Some(0)),
            cell("e", Some(1), Some(1)),
            cell("f", Some(1), Some(2)),
        ],
    );
    assert_eq!(
        materialize(&full),
        vec![
            vec![Slot::Anchor(0), Slot::Anchor(1), Slot::Anchor(2)],
            vec![Slot::Anchor(3), Slot::Anchor(4), Slot::Anchor(5)],
        ]
    );
    let text = convert_table_to_markdown(&full, &document(), &options(None));
    assert_eq!(text, "\n| a | b | c |\n|---|---|---|\n| d | e | f |\n");
    assert_eq!(text.lines().count(), 4);
}

#[test]
fn cells_may_come_in_any_order_when_they_declare_their_place() {
    let shuffled = table(
        2,
        2,
        vec![
            cell("d", Some(1), Some(1)),
            cell("a", Some(0), Some(0)),
            cell("c", Some(1), Some(0)),
            cell("b", Some(0), Some(1)),
        ],
    );
    assert_eq!(
        convert_table_to_markdown_simple(&shuffled, &document(), &options(None)),
        "\n| a | b |\n|---|---|\n| c | d |\n"
    );
}

#[test]
fn one_cell_over_the_whole_grid_gives_one_td_with_both_spans() {
    let merged = table(2, 2, vec![spanned("X", Some(0), Some(0), 2, 2)]);
    assert_eq!(
        materialize(&merged),
        vec![vec![Slot::Anchor(0), Slot::Merged], vec![Slot::Merged, Slot::Merged]]
    );
    let html = convert_table_to_markdown(&merged, &document(), &options(None));
    assert_eq!(
        html,
        format!("{TABLE_OPEN}  <tr>\n    <td colspan=\"2\" rowspan=\"2\">X</td>\n  </tr>\n</table>\n")
    );
    assert_eq!(html.matches("<td").count(), 1);
    assert_eq!(html.matches("<tr>").count(), 1);
}

#[test]
fn of_two_cells_at_one_place_the_first_wins() {
    let clash = table(
        1,
        2,
        vec![cell("first", Some(0), Some(0)), cell("second", Some(0), Some(0)), cell("b", Some(0), Some(1))],
    );
    assert_eq!(materialize(&clash), vec![vec![Slot::Anchor(0), Slot::Anchor(2)]]);
    let text = convert_table_to_markdown(&clash, &document(), &options(None));
    assert_eq!(text, "\n| first | b |\n|---|---|\n");
    assert!(!text.contains("second"));
    let html = convert_table_to_html(&clash, &document(), &options(Some(true)));
    assert!(html.contains("<td>first</td>"));
    assert!(!html.contains("second"));
}

#[test]
fn a_span_keeps_the_slots_it_reached_first() {
    let overlap = table(
        2,
        2,
        vec![
            spanned("wide", Some(0), Some(0), 2, 2),
            cell("late", Some(1), Some(1)),
        ],
    );
    assert_eq!(
        materialize(&overlap),
        vec![vec![Slot::Anchor(0), Slot::Merged], vec![Slot::Merged, Slot::Merged]]
    );
    let crossing = table(
        2,
        2,
        vec![
            spanned("wide", Some(1), Some(0), 1, 2),
            spanned("tall", Some(0), Some(1), 2, 1),
        ],
    );
    assert_eq!(
        materialize(&crossing),
        vec![vec![Slot::Free, Slot::Anchor(1)], vec![Slot::Anchor(0), Slot::Merged]]
    );
    assert_eq!(
        convert_table_to_markdown_simple(&crossing, &document(), &options(None)),
        "\n|   | tall |\n|---|---|\n| wide |   |\n"
    );
}

#[test]
fn a_column_that_does_not_grow_starts_the_next_row() {
    let run = table(2, 2, vec![cell("A", None, Some(0)), cell("B", None, Some(1)), cell("C", None, Some(0))]);
    assert_eq!(
        materialize(&run),
        vec![vec![Slot::Anchor(0), Slot::Anchor(1)], vec![Slot::Anchor(2), Slot::Free]]
    );
    assert_eq!(
        markdown_grid(&run, &document(), &options(None)),
        vec![
            vec![Some("A".to_string()), Some("B".to_string())],
            vec![Some("C".to_string()), None],
        ]
    );
    assert_eq!(
        convert_table_to_markdown(&run, &document(), &options(None)),
        "\n| A | B |\n|---|---|\n| C |   |\n"
    );
}

#[test]
fn a_run_of_cells_has_no_more_rows_than_the_table_declares() {
    let run = table(
        2,
        2,
        vec![
            cell("A", Some(4), Some(0)),
            cell("B", Some(4), Some(0)),
            cell("C", Some(4), Some(0)),
            cell("D", Some(4), Some(1)),
        ],
    );
    assert_eq!(
        materialize(&run),
        vec![vec![Slot::Anchor(0), Slot::Free], vec![Slot::Anchor(1), Slot::Anchor(3)]]
    );
}

#[test]
fn cells_without_a_column_stand_behind_the_last_cell_of_their_row() {
    let rows = table(
        2,
        3,
        vec![
            cell("a", Some(0), None),
            cell("c", Some(1), Some(1)),
            spanned("b", Some(0), None, 1, 2),
            cell("d", Some(1), None),
        ],
    );
    assert_eq!(
        materialize(&rows),
        vec![
            vec![Slot::Anchor(0), Slot::Anchor(2), Slot::Merged],
            vec![Slot::Free, Slot::Anchor(1), Slot::Anchor(3)],
        ]
    );
}

#[test]
fn cells_outside_the_grid_get_no_place_and_spans_end_at_its_edge() {
    let clipped = table(
        2,
        2,
        vec![
            cell("in", Some(0), Some(0)),
            cell("right", Some(0), Some(2)),
            cell("below", Some(2), Some(0)),
            spanned("edge", Some(1), Some(1), 5, 5),
        ],
    );
    assert_eq!(
        materialize(&clipped),
        vec![vec![Slot::Anchor(0), Slot::Free], vec![Slot::Free, Slot::Anchor(3)]]
    );
}

#[test]
fn a_span_of_zero_counts_as_one() {
    let zero = table(1, 2, vec![spanned("z", Some(0), Some(0), 0, 0), cell("n", Some(0), None)]);
    assert_eq!(materialize(&zero), vec![vec![Slot::Anchor(0), Slot::Anchor(1)]]);
}

#[test]
fn a_table_without_a_grid_renders_as_a_placeholder() {
    let doc = document();
    assert_eq!(
        convert_table_to_markdown(&table(0, 3, vec![cell("a", None, None)]), &doc, &options(None)),
        "\n\n[Table: 0x3]\n\n"
    );
    assert_eq!(
        convert_table_to_markdown(&table(12, 0, vec![]), &doc, &options(Some(true))),
        "\n\n[Table: 12x0]\n\n"
    );
    assert_eq!(
        convert_table_to_markdown(&table(2, 2, vec![]), &doc, &options(None)),
        "\n\n[Empty Table: 2x2]\n\n"
    );
    assert_eq!(
        convert_table_to_markdown(&table(2, 2, vec![cell("far", Some(9), Some(9))]), &doc, &options(None)),
        "\n\n[Empty Table: 2x2]\n\n"
    );
}

#[test]
fn html_is_chosen_on_request_or_for_merged_cells() {
    let doc = document();
    let plain = table(1, 2, vec![cell("a", Some(0), Some(0)), cell("b", Some(0), Some(1))]);
    assert_eq!(convert_table_to_markdown(&plain, &doc, &options(None)), "\n| a | b |\n|---|---|\n");
    assert_eq!(convert_table_to_markdown(&plain, &doc, &options(Some(false))), "\n| a | b |\n|---|---|\n");
    assert_eq!(
        convert_table_to_markdown(&plain, &doc, &options(Some(true))),
        format!("{TABLE_OPEN}  <tr>\n    <td>a</td>\n    <td>b</td>\n  </tr>\n</table>\n")
    );
    let merged = table(
        2,
        2,
        vec![
            spanned("top", Some(0), Some(0), 1, 2),
            spanned("left", Some(1), Some(0), 1, 1),
            spanned("right", Some(1), Some(1), 1, 1),
        ],
    );
    assert_eq!(
        convert_table_to_markdown(&merged, &doc, &options(None)),
        format!(
            "{TABLE_OPEN}  <tr>\n    <td colspan=\"2\">top</td>\n  </tr>\n  <tr>\n    <td>left</td>\n    <td>right</td>\n  </tr>\n</table>\n"
        )
    );
    assert_eq!(
        convert_table_to_markdown_simple(&merged, &doc, &options(None)),
        "\n| top |   |\n|---|---|\n| left | right |\n"
    );
}

#[test]
fn html_rows_without_content_are_left_out() {
    let doc = document();
    let sparse = table(
        3,
        2,
        vec![
            cell("a", Some(0), Some(0)),
            cell("   ", Some(1), Some(0)),
            cell("", Some(1), Some(1)),
            spanned("line one\nline two", Some(2), Some(1), 3, 1),
        ],
    );
    assert_eq!(
        html_rows(&sparse, &doc, &options(Some(true))),
        vec![
            vec![HtmlCell { content: "a".to_string(), col_span: 1, row_span: 1 }],
            vec![HtmlCell { content: "line one\nline two".to_string(), col_span: 1, row_span: 3 }],
        ]
    );
    assert_eq!(
        convert_table_to_html(&sparse, &doc, &options(Some(true))),
        format!(
            "{TABLE_OPEN}  <tr>\n    <td>a</td>\n  </tr>\n  <tr>\n    <td rowspan=\"3\">line one<br>line two</td>\n  </tr>\n</table>\n"
        )
    );
    let blank = table(1, 1, vec![cell(" ", Some(0), Some(0))]);
    assert_eq!(convert_table_to_html(&blank, &doc, &options(Some(true))), format!("{TABLE_OPEN}</table>\n"));
}

#[test]
fn a_markdown_cell_escapes_pipes_and_shows_a_blank_for_no_text() {
    let doc = document();
    let none = TableCell { paragraphs: vec![], row_span: 1, col_span: 1, row_address: None, col_address: None };
    assert_eq!(fill_cell_content(&none, &doc, &options(None)), " ");
    assert_eq!(fill_cell_content(&cell("", None, None), &doc, &options(None)), " ");
    assert_eq!(fill_cell_content(&cell("a|b||", None, None), &doc, &options(None)), "a\\|b\\|\\|");
    assert_eq!(fill_cell_content(&cell("  ", None, None), &doc, &options(None)), " ");
}

#[test]
fn a_markdown_cell_segments_its_texts_and_separates_its_paragraphs() {
    let doc = document();
    let marked = |text: &str, offsets: &[usize]| CellPart::TextRun {
        text: text.to_string(),
        markers: offsets
            .iter()
            .map(|&offset| BreakMarker { offset, kind: BreakKind::LineBreak })
            .collect(),
    };
    let two = TableCell {
        paragraphs: vec![
            CellParagraph { parts: vec![marked("ab\rcd", &[2]), marked("ef", &[2])] },
            CellParagraph { parts: vec![marked("  ", &[])] },
            CellParagraph { parts: vec![marked("gh", &[])] },
        ],
        row_span: 1,
        col_span: 1,
        row_address: None,
        col_address: None,
    };
    assert_eq!(fill_cell_content(&two, &doc, &options(None)), "ab cdef   gh");
    assert_eq!(fill_cell_content(&two, &doc, &options(Some(true))), "ab<br>cdef<br>  gh");
    assert_eq!(get_cell_content(&two, &doc, &options(None)), "ab\rcd ef gh");
}

#[test]
fn images_in_cells_render_as_links_or_data_uris() {
    let mut doc = document();
    doc.bin_data.items.push(BinaryDataItem {
        index: 1,
        data: "iVBORw0KGgo=".to_string(),
        name: Some("image1".to_string()),
    });
    doc.doc_info.bin_data.push(BinDataRecord::Embedding { binary_data_id: 1, extension: "PNG".to_string() });
    let picture = TableCell {
        paragraphs: vec![CellParagraph {
            parts: vec![
                CellPart::TextRun { text: "see".to_string(), markers: vec![] },
                CellPart::ImageRef { identifier: "image1".to_string() },
                CellPart::ImageRef { identifier: "missing".to_string() },
            ],
        }],
        row_span: 1,
        col_span: 1,
        row_address: None,
        col_address: None,
    };
    assert_eq!(
        get_cell_content(&picture, &doc, &options(None)),
        "see ![이미지](data:image/png;base64,iVBORw0KGgo=)"
    );
    assert_eq!(
        fill_cell_content(&picture, &doc, &options(None)),
        "see![이미지](data:image/png;base64,iVBORw0KGgo=)"
    );
    let mut linked = options(None);
    linked.image_output_dir = Some("out/images".to_string());
    assert_eq!(get_cell_content(&picture, &doc, &linked), "see ![이미지](images/BIN0001.PNG)");
    linked.failed_images = vec![1];
    assert_eq!(
        get_cell_content(&picture, &doc, &linked),
        "see ![이미지](data:image/png;base64,iVBORw0KGgo=)"
    );
}
