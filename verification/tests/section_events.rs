use hwp_core::document::{CellPart, Paragraph, ParagraphRecord, Section, Table};
use hwp_core::error::ErrorKind;
use hwp_core::parser::hwpx::event::{Attribute, StreamEvent};
use hwp_core::parser::hwpx::section::{
    create_image_paragraph, create_paragraph, create_table_paragraph_with_spans, expand_tab,
    parse_events, parse_section_xml, HwpxCell, SectionParser,
};
use hwp_core::parser::hwpx::xml::read_events;

fn open(name: &str) -> StreamEvent {
    StreamEvent::Open { name: name.to_string(), attributes: vec![] }
}

fn open_with(name: &str, attributes: &[(&str, &str)]) -> StreamEvent {
    StreamEvent::Open {
        name: name.to_string(),
        attributes: attributes
            .iter()
            .map(|(key, value)| Attribute { key: key.to_string(), value: value.to_string() })
            .collect(),
    }
}

fn close(name: &str) -> StreamEvent {
    StreamEvent::Close { name: name.to_string() }
}

fn text(text: &str) -> StreamEvent {
    StreamEvent::Text { text: text.to_string() }
}

fn text_of(paragraph: &Paragraph) -> Option<String> {
    match &paragraph.records[0] {
        ParagraphRecord::TextRun { text, .. } => Some(text.clone()),
        _ => None,
    }
}

fn table_of(paragraph: &Paragraph) -> Option<Table> {
    match &paragraph.records[0] {
        ParagraphRecord::Table { table } => Some(table.clone()),
        _ => None,
    }
}

fn cell_text(table: &Table, index: usize) -> String {
    match &table.cells[index].paragraphs[0].parts[0] {
        CellPart::TextRun { text, .. } => text.clone(),
        CellPart::ImageRef { identifier } => identifier.clone(),
    }
}

fn texts(section: &Section) -> Vec<Option<String>> {
    section.paragraphs.iter().map(text_of).collect()
}

#[test]
fn top_level_paragraphs_come_out_in_order() {
    let events = vec![
        open("hp:p"), open("hp:t"), text("one"), close("hp:t"), close("hp:p"),
        open("hp:p"), open("hp:t"), text("two"), close("hp:t"), close("hp:p"),
    ];
    let section = parse_events(&events, 7);
    assert_eq!(section.index, 7);
    assert_eq!(texts(&section), vec![Some("one".to_string()), Some("two".to_string())]);
}

#[test]
fn a_paragraph_without_text_is_not_handed_out() {
    let events = vec![open("p"), close("p"), open("p"), open("t"), text("x"), close("t"), close("p")];
    let section = parse_events(&events, 0);
    assert_eq!(texts(&section), vec![Some("x".to_string())]);
}

#[test]
fn nested_paragraphs_join_the_paragraph_around_them() {
    let events = vec![
        open("hp:p"),
        open("hp:t"), text("outer"), close("hp:t"),
        open("hp:p"), open("hp:t"), text("inner"), close("hp:t"), close("hp:p"),
        open("hp:t"), text("tail"), close("hp:t"),
        close("hp:p"),
    ];
    let section = parse_events(&events, 0);
    assert_eq!(texts(&section), vec![Some("outerinner\ntail".to_string())]);
}

#[test]
fn text_outside_a_text_element_is_passed_over() {
    let events = vec![open("p"), text("lost"), open("t"), text("kept"), close("t"), close("p")];
    assert_eq!(texts(&parse_events(&events, 0)), vec![Some("kept".to_string())]);
}

#[test]
fn unknown_elements_change_nothing() {
    let events = vec![
        open("p"), open_with("hp:run", &[("charPrIDRef", "3")]), open("t"), text("a"),
        open("hp:unknown"), close("hp:unknown"), text("b"), close("t"), close("hp:run"), close("p"),
    ];
    assert_eq!(texts(&parse_events(&events, 0)), vec![Some("ab".to_string())]);
}

#[test]
fn a_table_comes_out_with_its_cells_rows_and_spans() {
    let events = vec![
        open("hp:p"),
        open("hp:tbl"),
        open("hp:tr"),
        open("hp:tc"),
        open_with("hp:cellAddr", &[("colAddr", "0"), ("rowAddr", "0")]), close("hp:cellAddr"),
        open_with("hp:cellSpan", &[("colSpan", "2"), ("rowSpan", "1")]), close("hp:cellSpan"),
        open("hp:p"), open("hp:t"), text("head"), close("hp:t"), close("hp:p"),
        close("hp:tc"),
        close("hp:tr"),
        open("hp:tr"),
        open("hp:tc"),
        open_with("hp:cellAddr", &[("colAddr", "0"), ("rowAddr", "1")]), close("hp:cellAddr"),
        open("hp:p"), open("hp:t"), text("a"), close("hp:t"), close("hp:p"),
        open("hp:p"), open("hp:t"), text("b"), close("hp:t"), close("hp:p"),
        close("hp:tc"),
        open("hp:tc"),
        open_with("hp:cellAddr", &[("colAddr", "1"), ("rowAddr", "1")]), close("hp:cellAddr"),
        close("hp:tc"),
        close("hp:tr"),
        close("hp:tbl"),
        close("hp:p"),
    ];
    let section = parse_events(&events, 0);
    assert_eq!(section.paragraphs.len(), 1);
    let table = table_of(&section.paragraphs[0]).unwrap();
    assert_eq!(table.row_count, 2);
    assert_eq!(table.col_count, 2);
    assert_eq!(table.cells.len(), 3);
    assert_eq!(cell_text(&table, 0), "head");
    assert_eq!(table.cells[0].col_span, 2);
    assert_eq!(table.cells[0].row_span, 1);
    assert_eq!((table.cells[0].row_address, table.cells[0].col_address), (Some(0), Some(0)));
    assert_eq!(cell_text(&table, 1), "a\nb");
    assert_eq!((table.cells[1].row_address, table.cells[1].col_address), (Some(1), Some(0)));
    assert_eq!(cell_text(&table, 2), "");
    assert_eq!((table.cells[2].row_address, table.cells[2].col_address), (Some(1), Some(1)));
}

#[test]
fn a_caption_comes_out_as_a_paragraph_before_its_table() {
    let events = vec![
        open("tbl"),
        open("caption"), open("t"), text("  Table 1  "), close("t"), close("caption"),
        open("tr"), open("tc"), open("t"), text("x"), close("t"), close("tc"), close("tr"),
        close("tbl"),
    ];
    let section = parse_events(&events, 0);
    assert_eq!(section.paragraphs.len(), 2);
    assert_eq!(text_of(&section.paragraphs[0]), Some("Table 1".to_string()));
    assert!(table_of(&section.paragraphs[1]).is_some());
}

#[test]
fn a_blank_caption_and_a_table_without_rows_give_nothing() {
    let events = vec![
        open("tbl"),
        open("caption"), open("t"), text("   "), close("t"), close("caption"),
        open("tr"), close("tr"),
        close("tbl"),
    ];
    assert_eq!(parse_events(&events, 0).paragraphs.len(), 0);
}

#[test]
fn text_in_a_table_does_not_reach_the_paragraph_around_it() {
    let events = vec![
        open("p"), open("t"), text("before"), close("t"),
        open("tbl"), open("tr"), open("tc"), open("t"), text("cell"), close("t"), close("tc"),
        close("tr"), close("tbl"),
        close("p"),
    ];
    let section = parse_events(&events, 0);
    assert_eq!(section.paragraphs.len(), 2);
    assert!(table_of(&section.paragraphs[0]).is_some());
    assert_eq!(text_of(&section.paragraphs[1]), Some("before".to_string()));
}

#[test]
fn a_drawing_container_gives_one_image_the_last_one_named() {
    let events = vec![
        open("hp:pic"),
        open_with("hc:img", &[("binaryItemIDRef", "image1")]), close("hc:img"),
        open_with("hc:img", &[("binaryItemIDRef", "image2"), ("alpha", "0")]), close("hc:img"),
        close("hp:pic"),
        open("hp:pic"), close("hp:pic"),
    ];
    let section = parse_events(&events, 0);
    assert_eq!(section.paragraphs.len(), 1);
    assert_eq!(
        section.paragraphs[0].records,
        vec![ParagraphRecord::ImageRef { identifier: "image2".to_string() }]
    );
}

#[test]
fn an_open_paragraph_takes_its_images_between_its_texts() {
    let run = |text: &str| ParagraphRecord::TextRun { text: text.to_string(), markers: vec![] };
    let image = |identifier: &str| ParagraphRecord::ImageRef { identifier: identifier.to_string() };
    let events = vec![
        open("hp:p"),
        open("hp:t"), text("before"), close("hp:t"),
        open("hp:pic"), open_with("hc:img", &[("binaryItemIDRef", "image1")]), close("hc:img"), close("hp:pic"),
        open("hp:pic"), open_with("hc:img", &[("binaryItemIDRef", "image2")]), close("hc:img"), close("hp:pic"),
        open("hp:t"), text("after"), close("hp:t"),
        close("hp:p"),
        open("hp:p"),
        open("hp:pic"), open_with("hc:img", &[("binaryItemIDRef", "image3")]), close("hc:img"),
    ];
    let section = parse_events(&events, 0);
    assert_eq!(section.paragraphs.len(), 2);
    assert_eq!(
        section.paragraphs[0].records,
        vec![run("before"), image("image1"), image("image2"), run("after")]
    );
    assert_eq!(section.paragraphs[1].records, vec![image("image3")]);
}

#[test]
fn an_image_in_a_table_is_handed_out_on_its_own() {
    let events = vec![
        open("p"),
        open("tbl"), open("tr"), open("tc"),
        open("pic"), open_with("img", &[("binaryItemIDRef", "inside")]), close("img"), close("pic"),
        open("t"), text("cell"), close("t"),
        close("tc"), close("tr"), close("tbl"),
        close("p"),
    ];
    let section = parse_events(&events, 0);
    assert_eq!(section.paragraphs.len(), 2);
    assert_eq!(
        section.paragraphs[0].records,
        vec![ParagraphRecord::ImageRef { identifier: "inside".to_string() }]
    );
    assert!(table_of(&section.paragraphs[1]).is_some());
}

#[test]
fn tab_stops_expand_by_their_leader() {
    let to_text = |leader: u8, width: u32| expand_tab(leader, width).into_iter().collect::<String>();
    assert_eq!(to_text(0, 4000), "\t");
    assert_eq!(to_text(7, 4000), "\t");
    assert_eq!(to_text(3, 0), "...");
    assert_eq!(to_text(3, 1199), "...");
    assert_eq!(to_text(3, 6000), ".....");
    assert_eq!(to_text(3, 1_000_000), ".".repeat(80));
    assert_eq!(to_text(2, 0), "--");
    assert_eq!(to_text(2, 7200), "---");
    assert_eq!(to_text(2, 1_000_000), "-".repeat(40));
    assert_eq!(to_text(1, 2399), "__");
    assert_eq!(to_text(1, 12000), "_____");
    assert_eq!(to_text(1, u32::MAX), "_".repeat(40));
}

#[test]
fn a_dotted_tab_stop_below_the_width_of_a_dot_is_three_dots() {
    let events = vec![
        open("p"), open("t"), text("a"),
        open_with("hp:tab", &[("width", "100"), ("leader", "3"), ("type", "2")]), close("hp:tab"),
        text("b"), close("t"), close("p"),
    ];
    assert_eq!(texts(&parse_events(&events, 0)), vec![Some("a...b".to_string())]);
}

#[test]
fn attributes_that_are_no_numbers_fall_back() {
    let events = vec![
        open("p"),
        open_with("tab", &[("width", "wide"), ("leader", "3")]),
        open_with("tab", &[("width", "9600"), ("leader", "x")]),
        close("p"),
        open("tbl"), open("tr"), open("tc"),
        open_with("cellSpan", &[("colSpan", "many"), ("rowSpan", "0")]),
        open_with("cellAddr", &[("colAddr", "-1"), ("rowAddr", "1")]),
        open("t"), text("c"), close("t"),
        close("tc"), close("tr"), close("tbl"),
    ];
    let section = parse_events(&events, 0);
    assert_eq!(text_of(&section.paragraphs[0]), Some("...\t".to_string()));
    let table = table_of(&section.paragraphs[1]).unwrap();
    assert_eq!(table.cells[0].col_span, 1);
    assert_eq!(table.cells[0].row_span, 1);
    assert_eq!(table.cells[0].col_address, Some(0));
    assert_eq!(table.cells[0].row_address, Some(1));
}

#[test]
fn what_stands_open_at_the_end_of_the_stream_closes_there() {
    let events = vec![open("p"), open("t"), text("cut off")];
    assert_eq!(texts(&parse_events(&events, 0)), vec![Some("cut off".to_string())]);

    let events = vec![
        open("p"), open("tbl"), open("tr"), open("tc"), open("p"), open("t"), text("cell"),
    ];
    let section = parse_events(&events, 0);
    assert_eq!(section.paragraphs.len(), 1);
    let table = table_of(&section.paragraphs[0]).unwrap();
    assert_eq!(table.cells.len(), 1);
    assert_eq!(cell_text(&table, 0), "cell");
}

#[test]
fn the_pass_can_be_fed_event_by_event() {
    let mut parser = SectionParser::new();
    for event in [open("p"), open("t"), text("step"), close("t"), close("p")] {
        parser.feed(&event);
    }
    assert_eq!(texts(&parser.finish(2)), vec![Some("step".to_string())]);
}

#[test]
fn cells_without_a_declared_column_stand_behind_each_other() {
    let cell = |text: &str, col_span: u16, col_addr: Option<u16>| HwpxCell {
        text: text.to_string(),
        col_span,
        row_span: 1,
        col_addr,
        row_addr: None,
    };
    let rows = vec![
        vec![cell("a", 1, None), cell("b", 2, None), cell("c", 1, None)],
        vec![cell("d", 1, Some(5)), cell("e", 1, None)],
    ];
    let table = table_of(&create_table_paragraph_with_spans(&rows)).unwrap();
    assert_eq!(table.row_count, 2);
    assert_eq!(table.col_count, 7);
    let places: Vec<(Option<u16>, Option<u16>)> =
        table.cells.iter().map(|c| (c.row_address, c.col_address)).collect();
    assert_eq!(
        places,
        vec![
            (Some(0), Some(0)),
            (Some(0), Some(1)),
            (Some(0), Some(3)),
            (Some(1), Some(5)),
            (Some(1), Some(6)),
        ]
    );
}

#[test]
fn paragraphs_of_text_and_images_hold_one_record() {
    assert_eq!(
        create_paragraph("text").records,
        vec![ParagraphRecord::TextRun { text: "text".to_string(), markers: vec![] }]
    );
    assert_eq!(
        create_image_paragraph("image7").records,
        vec![ParagraphRecord::ImageRef { identifier: "image7".to_string() }]
    );
    assert_eq!(HwpxCell::default().col_span, 1);
    assert_eq!(HwpxCell::default().row_addr, None);
}

#[test]
fn xml_text_decodes_to_events() {
    let events = read_events(
        "<?xml version=\"1.0\"?><a:p id=\"1\" n='x &amp; y'> hi &lt;you&gt; <b/><!-- c --></a:p>",
        "label: ",
    )
    .unwrap();
    assert_eq!(
        events,
        vec![
            open_with("a:p", &[("id", "1"), ("n", "x &amp; y")]),
            text("hi <you>"),
            open("b"),
            close("b"),
            close("a:p"),
        ]
    );
}

#[test]
fn text_that_is_no_xml_is_refused() {
    let error = read_events("<a><b></a>", "label: ").unwrap_err();
    assert_eq!(error.kind(), ErrorKind::XmlParse);
    assert!(error.message().starts_with("label: "));
    assert!(error.message().len() > "label: ".len());
    let error = parse_section_xml("<hp:p><hp:t>text</hp:p>", 0).unwrap_err();
    assert_eq!(error.kind(), ErrorKind::XmlParse);
}

#[test]
fn a_section_is_read_from_its_xml() {
    let xml = r#"<?xml version="1.0" encoding="UTF-8"?>
<hs:sec xmlns:hs="s" xmlns:hp="p" xmlns:hc="c">
  <hp:p><hp:run><hp:t>Title</hp:t></hp:run></hp:p>
  <hp:p><hp:run><hp:t>a<hp:tab width="2400" leader="3"/>b</hp:t></hp:run></hp:p>
  <hp:p><hp:run>
    <hp:tbl>
      <hp:tr>
        <hp:tc><hp:subList><hp:p><hp:run><hp:t>A</hp:t></hp:run></hp:p></hp:subList>
          <hp:cellAddr colAddr="0" rowAddr="0"/><hp:cellSpan colSpan="1" rowSpan="1"/></hp:tc>
        <hp:tc><hp:subList><hp:p><hp:run><hp:t>B</hp:t></hp:run></hp:p></hp:subList>
          <hp:cellAddr colAddr="1" rowAddr="0"/><hp:cellSpan colSpan="1" rowSpan="1"/></hp:tc>
      </hp:tr>
    </hp:tbl>
  </hp:run></hp:p>
  <hp:p><hp:run><hp:pic><hc:img binaryItemIDRef="image1"/></hp:pic></hp:run></hp:p>
  <hp:p><hp:run><hp:t>truncated"#;
    let section = parse_section_xml(xml, 3).unwrap();
    assert_eq!(section.index, 3);
    assert_eq!(section.paragraphs.len(), 5);
    assert_eq!(text_of(&section.paragraphs[0]), Some("Title".to_string()));
    assert_eq!(text_of(&section.paragraphs[1]), Some("a...b".to_string()));
    let table = table_of(&section.paragraphs[2]).unwrap();
    assert_eq!((table.row_count, table.col_count), (1, 2));
    assert_eq!(cell_text(&table, 0), "A");
    assert_eq!(cell_text(&table, 1), "B");
    assert_eq!(
        section.paragraphs[3].records,
        vec![ParagraphRecord::ImageRef { identifier: "image1".to_string() }]
    );
    assert_eq!(text_of(&section.paragraphs[4]), Some("truncated".to_string()));
}

#[test]
fn attributes_that_cannot_be_read_are_passed_over() {
    let events = read_events("<d k=\"1\" k=\"2\" m=\"3\"/><e a=\"1\" b c=\"3\"></e>", "").unwrap();
    assert_eq!(
        events,
        vec![
            open_with("d", &[("k", "1"), ("m", "3")]),
            close("d"),
            open_with("e", &[("a", "1"), ("c", "3")]),
            close("e"),
        ]
    );
}
