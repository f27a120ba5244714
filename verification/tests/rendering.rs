use std::collections::HashSet;

use hwp_core::document::chart_data::{
    parse_chart_obj, split_chart_data, AxisId, BrushStyle, ChartObjHeader, ChartType, FillStyle,
    LocationType, Orientation, PenStyle, VtColor,
};
use hwp_core::document::{
    format_version, get_text, BinDataRecord, BodyText, FileHeader, HwpDocument, Paragraph,
    ParagraphRecord, Section, Table,
};
use hwp_core::number::{parse_number, push_decimal, push_hex_padded};
use hwp_core::viewer::html::image::{render_image, render_image_with_style};
use hwp_core::viewer::markdown::common::{
    detect_mime_type_from_base64, format_image_markdown, get_extension_from_bindata_id,
    get_mime_type_from_bindata_id, image_file_name,
};
use hwp_core::viewer::markdown::MarkdownOptions;

fn document() -> HwpDocument {
    HwpDocument::new(FileHeader {
        signature: "HWP Document File".to_string(),
        version: 0x0501_0000,
        document_flags: 0,
        license_flags: 0,
        encrypt_version: 0,
        kogl_country: 0,
        reserved: vec![0; 207],
    })
}

#[test]
fn an_image_block_gives_its_place_in_millimetres() {
    assert_eq!(
        render_image("pic.png", 7200, 0, 3600, 14400),
        "<div class=\"hsR\" style=\"top:0mm;left:25.4mm;width:12.7mm;height:50.8mm;background-repeat:no-repeat;background-size:contain;background-image:url('pic.png');\"></div>"
    );
    assert_eq!(
        render_image("", -7200, 180, 1, -1),
        "<div class=\"hsR\" style=\"top:0.64mm;left:-25.4mm;width:0mm;height:-0mm;background-repeat:no-repeat;background-size:contain;background-image:url('');\"></div>"
    );
    assert_eq!(
        render_image("u", 2, 283, 1000, i32::MAX),
        "<div class=\"hsR\" style=\"top:1mm;left:0.01mm;width:3.53mm;height:7575845.09mm;background-repeat:no-repeat;background-size:contain;background-image:url('u');\"></div>"
    );
    assert!(render_image("u", i32::MIN, 0, 0, 0).contains("left:-7575845.09mm;"));
}

#[test]
fn an_inline_image_block_has_margins() {
    assert_eq!(
        render_image_with_style("data:x", 0, 0, 2835, 5669, 284, 567),
        "<div class=\"hsR\" style=\"top:0mm;left:0mm;margin-bottom:1mm;margin-right:2mm;width:10mm;height:20mm;display:inline-block;position:relative;vertical-align:middle;background-repeat:no-repeat;background-size:contain;background-image:url('data:x');\"></div>"
    );
}

#[test]
fn a_version_is_written_byte_by_byte() {
    assert_eq!(format_version(0x0501_0000), "5.1.0.0");
    assert_eq!(format_version(0x0500_0300), "5.0.3.0");
    assert_eq!(format_version(0), "0.0.0.0");
    assert_eq!(format_version(u32::MAX), "255.255.255.255");
    assert_eq!(format_version(0x0A0B_640C), "10.11.100.12");
}

#[test]
fn the_plain_text_has_one_line_for_each_text() {
    let run = |text: &str| ParagraphRecord::TextRun { text: text.to_string(), markers: vec![] };
    let mut doc = document();
    assert_eq!(get_text(&doc), "");
    doc.body_text = BodyText {
        sections: vec![
            Section {
                index: 0,
                paragraphs: vec![
                    Paragraph { records: vec![run("  first "), run(" \t"), run("second")] },
                    Paragraph {
                        records: vec![
                            ParagraphRecord::Table { table: Table { row_count: 0, col_count: 0, cells: vec![] } },
                            ParagraphRecord::ImageRef { identifier: "image1".to_string() },
                        ],
                    },
                ],
            },
            Section { index: 1, paragraphs: vec![Paragraph { records: vec![run("third\u{3000}")] }] },
        ],
    };
    assert_eq!(get_text(&doc), "first\nsecond\nthird");
}

#[test]
fn base64_data_tell_their_type_by_how_they_begin() {
    assert_eq!(detect_mime_type_from_base64("iVBORw0KGgoAAAANSUhEUg"), "image/png");
    assert_eq!(detect_mime_type_from_base64("/9j/4AAQSkZJRg"), "image/jpeg");
    assert_eq!(detect_mime_type_from_base64("Qk02AAAA"), "image/bmp");
    assert_eq!(detect_mime_type_from_base64("R0lGODlh"), "application/octet-stream");
    assert_eq!(detect_mime_type_from_base64("iVBOR"), "application/octet-stream");
    assert_eq!(detect_mime_type_from_base64(""), "application/octet-stream");
    assert_eq!(detect_mime_type_from_base64("Q"), "application/octet-stream");
}

#[test]
fn the_document_records_the_extension_of_an_embedded_file() {
    let mut doc = document();
    doc.doc_info.bin_data = vec![
        BinDataRecord::Link { path: "a.gif".to_string() },
        BinDataRecord::Storage { binary_data_id: 2 },
        BinDataRecord::Embedding { binary_data_id: 2, extension: "PNG".to_string() },
        BinDataRecord::Embedding { binary_data_id: 2, extension: "gif".to_string() },
        BinDataRecord::Embedding { binary_data_id: 3, extension: "Bmp".to_string() },
        BinDataRecord::Embedding { binary_data_id: 4, extension: "tiff".to_string() },
        BinDataRecord::Embedding { binary_data_id: 5, extension: "JPeG".to_string() },
        BinDataRecord::Embedding { binary_data_id: 6, extension: "GIF".to_string() },
        BinDataRecord::Embedding { binary_data_id: 0xABC, extension: "x/y.z".to_string() },
    ];
    assert_eq!(get_extension_from_bindata_id(&doc, 2), "PNG");
    assert_eq!(get_extension_from_bindata_id(&doc, 9), "jpg");
    assert_eq!(get_mime_type_from_bindata_id(&doc, 2), "image/png");
    assert_eq!(get_mime_type_from_bindata_id(&doc, 3), "image/bmp");
    assert_eq!(get_mime_type_from_bindata_id(&doc, 4), "image/jpeg");
    assert_eq!(get_mime_type_from_bindata_id(&doc, 5), "image/jpeg");
    assert_eq!(get_mime_type_from_bindata_id(&doc, 6), "image/gif");
    assert_eq!(get_mime_type_from_bindata_id(&doc, 9), "image/jpeg");
    assert_eq!(image_file_name(&doc, 2), "BIN0002.PNG");
    assert_eq!(image_file_name(&doc, 0xFFFF), "BINFFFF.jpg");
    assert_eq!(image_file_name(&doc, 0xABC), "BIN0ABC.x/y.z");
    assert_eq!(format_image_markdown(&doc, 0xABC, "Qk0=", true), "![이미지](images/y.z)");
    assert_eq!(format_image_markdown(&doc, 2, "Qk0=", true), "![이미지](images/BIN0002.PNG)");
    assert_eq!(format_image_markdown(&doc, 2, "Qk0=", false), "![이미지](data:image/bmp;base64,Qk0=)");
}

#[test]
fn options_tell_whether_an_image_is_linked() {
    let mut options = MarkdownOptions {
        image_output_dir: None,
        use_html: None,
        include_version: None,
        include_page_info: None,
        failed_images: vec![],
    };
    assert!(!options.wants_html());
    assert!(!options.links_image(1));
    options.use_html = Some(false);
    assert!(!options.wants_html());
    options.use_html = Some(true);
    assert!(options.wants_html());
    options.image_output_dir = Some("dir".to_string());
    assert!(options.links_image(1));
    options.failed_images = vec![3, 1];
    assert!(!options.links_image(1));
    assert!(options.links_image(2));
}

#[test]
fn numbers_are_read_as_the_standard_library_reads_them() {
    let parse = |text: &str, max: u64| parse_number(&text.chars().collect(), max);
    assert_eq!(parse("0", 255), Some(0));
    assert_eq!(parse("007", 255), Some(7));
    assert_eq!(parse("+12", 255), Some(12));
    assert_eq!(parse("255", 255), Some(255));
    assert_eq!(parse("256", 255), None);
    assert_eq!(parse("", 255), None);
    assert_eq!(parse("+", 255), None);
    assert_eq!(parse("-1", 255), None);
    assert_eq!(parse("-0", 255), None);
    assert_eq!(parse(" 1", 255), None);
    assert_eq!(parse("1 ", 255), None);
    assert_eq!(parse("1.0", 255), None);
    assert_eq!(parse("++1", 255), None);
    assert_eq!(parse("١", 255), None);
    assert_eq!(parse("18446744073709551615", u64::MAX), Some(u64::MAX));
    assert_eq!(parse("18446744073709551616", u64::MAX), None);
    assert_eq!(parse("99999999999999999999999999999999999999999999", u64::MAX), None);
    for text in ["0", "+12", "256", "", "-1", " 1", "65535", "65536", "4294967295", "4294967296"] {
        assert_eq!(parse(text, 255), text.parse::<u8>().ok().map(u64::from), "{text}");
        assert_eq!(parse(text, 65535), text.parse::<u16>().ok().map(u64::from), "{text}");
        assert_eq!(parse(text, u32::MAX as u64), text.parse::<u32>().ok().map(u64::from), "{text}");
    }
}

#[test]
fn numbers_are_written_in_decimal_and_hexadecimal() {
    let decimal = |n: u64| {
        let mut out = vec!['#'];
        push_decimal(&mut out, n);
        out.into_iter().collect::<String>()
    };
    assert_eq!(decimal(0), "#0");
    assert_eq!(decimal(9), "#9");
    assert_eq!(decimal(10), "#10");
    assert_eq!(decimal(65535), "#65535");
    assert_eq!(decimal(u64::MAX), "#18446744073709551615");
    let hex = |n: u64, width: usize| {
        let mut out = vec![];
        push_hex_padded(&mut out, n, width);
        out.into_iter().collect::<String>()
    };
    assert_eq!(hex(0, 4), "0000");
    assert_eq!(hex(0x1F, 4), "001F");
    assert_eq!(hex(0xABCDE, 4), "ABCDE");
    assert_eq!(hex(255, 0), "FF");
    assert_eq!(hex(0, 0), "0");
}

#[test]
fn chart_constants_fall_back_for_numbers_that_name_none() {
    assert_eq!(ChartType::from(26), ChartType::XYZ3D);
    assert_eq!(ChartType::from(27), ChartType::Unknown);
    assert_eq!(ChartType::from(255), ChartType::Unknown);
    assert_eq!(ChartType::default(), ChartType::Bar3D);
    assert_eq!(AxisId::from(2), AxisId::SecondaryY);
    assert_eq!(AxisId::from(4), AxisId::X);
    assert_eq!(BrushStyle::from(3), BrushStyle::Hatch);
    assert_eq!(BrushStyle::from(4), BrushStyle::NoBrush);
    assert_eq!(PenStyle::from(5), PenStyle::DashDotDot);
    assert_eq!(PenStyle::from(6), PenStyle::NoPen);
    assert_eq!(FillStyle::from(2), FillStyle::Gradient);
    assert_eq!(FillStyle::from(3), FillStyle::NoFill);
    assert_eq!(LocationType::from(8), LocationType::Custom);
    assert_eq!(LocationType::from(9), LocationType::Top);
    assert_eq!(Orientation::from(3), Orientation::TopDown);
    assert_eq!(Orientation::from(u32::MAX), Orientation::Horizontal);
}

#[test]
fn a_colour_comes_back_from_its_reference() {
    let color = VtColor { red: 0x40, green: 0x80, blue: 0xFF, automatic: false };
    assert_eq!(color.to_colorref(), 0x00FF_8040);
    assert_eq!(VtColor::from_colorref(color.to_colorref()), color);
    assert_eq!(VtColor::from_colorref(0xAB12_3456).to_colorref(), 0x0012_3456);
    assert!(!VtColor::from_colorref(0xFFFF_FFFF).automatic);
    assert_eq!(VtColor { red: 1, green: 2, blue: 3, automatic: true }.to_colorref(), 0x0003_0201);
    assert_eq!(VtColor::default(), VtColor { red: 0, green: 0, blue: 0, automatic: false });
}

#[test]
fn the_head_of_a_chart_object_is_read_once_for_each_type() {
    let data: Vec<u8> = [
        &[1u8, 0, 0, 0][..],
        &[0xFE, 0xFF, 0xFF, 0xFF],
        b"VtChart\0",
        &[7, 0, 0, 0x80],
        &[2, 0, 0, 0],
        &[0xFE, 0xFF, 0xFF, 0xFF],
        &[9],
    ]
    .concat();
    let mut offset = 0usize;
    let mut seen = HashSet::new();
    let first = parse_chart_obj(&data, &mut offset, &mut seen);
    assert_eq!(
        first,
        Some(ChartObjHeader {
            id: 1,
            stored_type_id: -2,
            stored_name: Some(b"VtChart".to_vec()),
            stored_version: Some(i32::MIN + 7),
        })
    );
    assert_eq!(offset, 20);
    assert!(seen.contains(&-2));
    let second = parse_chart_obj(&data, &mut offset, &mut seen);
    assert_eq!(
        second,
        Some(ChartObjHeader { id: 2, stored_type_id: -2, stored_name: None, stored_version: None })
    );
    assert_eq!(offset, 28);
    assert_eq!(parse_chart_obj(&data, &mut offset, &mut seen), None);
    assert_eq!(offset, 28);
    let mut far = usize::MAX;
    assert_eq!(parse_chart_obj(&data, &mut far, &mut seen), None);
    assert_eq!(seen.len(), 1);
}

#[test]
fn chart_data_split_into_the_head_and_the_raw_rest() {
    assert_eq!(split_chart_data(&[]), None);
    assert_eq!(split_chart_data(&[1, 2, 3, 4]), None);
    assert_eq!(split_chart_data(&[0; 7]), None);
    assert_eq!(split_chart_data(&[0; 8]), Some(8));
    assert_eq!(split_chart_data(&[0, 0, 0, 0, 1, 0, 0, 0, b'a', b'b']), Some(10));
    assert_eq!(split_chart_data(&[0, 0, 0, 0, 1, 0, 0, 0, b'a', 0, 1, 2, 3]), Some(10));
    assert_eq!(split_chart_data(&[0, 0, 0, 0, 1, 0, 0, 0, b'a', 0, 1, 2, 3, 4, 5]), Some(14));
    assert_eq!(split_chart_data(&[0, 0, 0, 0, 1, 0, 0, 0, 0, 1, 2, 3, 4]), Some(13));
}
