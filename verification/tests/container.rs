use std::io::Write;

use hwp_core::document::{
    BinaryDataItem, FileHeader, HwpDocument, ParagraphRecord,
};
use hwp_core::error::ErrorKind;
use hwp_core::parser::hwpx::bindata::parse_bindata;
use hwp_core::parser::hwpx::container::HwpxContainer;
use hwp_core::parser::hwpx::header::{
    parse_doc_info, parse_file_header, parse_header_xml_content, parse_version_xml,
};
use hwp_core::parser::hwpx::parse;
use hwp_core::parser::hwpx::section::parse_sections;
use hwp_core::document::DocInfo;
use hwp_core::viewer::html::to_html;
use hwp_core::viewer::markdown::common::decode_image;
use hwp_core::viewer::markdown::{to_markdown, MarkdownOptions};

fn archive(files: &[(&str, &[u8])]) -> Vec<u8> {
    let mut writer = zip::ZipWriter::new(std::io::Cursor::new(Vec::new()));
    for (name, content) in files {
        writer.start_file(*name, zip::write::SimpleFileOptions::default()).unwrap();
        writer.write_all(content).unwrap();
    }
    writer.finish().unwrap().into_inner()
}

const SECTION: &str = "<hs:sec><hp:p><hp:run><hp:t>Hello</hp:t></hp:run></hp:p></hs:sec>";
const HEADER: &str = "<hh:head><hh:refList><hh:charShapes/></hh:refList></hh:head>";

fn document_files<'a>() -> Vec<(&'a str, &'a [u8])> {
    vec![
        ("mimetype", b"application/hwp+zip".as_slice()),
        ("version.xml", br#"<hv:HCFVersion major="5" minor="1"/>"#.as_slice()),
        ("Contents/header.xml", HEADER.as_bytes()),
        ("Contents/section10.xml", b"<s><p><t>ten</t></p></s>".as_slice()),
        ("Contents/section2.xml", b"<s><p><t>two &amp; a half</t></p></s>".as_slice()),
        ("Contents/section0.xml", SECTION.as_bytes()),
        ("Contents/content.hpf", b"<opf/>".as_slice()),
        ("BinData/image1.png", b"\x89PNG\r\n\x1a\n".as_slice()),
        ("BinData/photo", b"hello".as_slice()),
        ("Preview/PrvText.txt", "Hello 미리보기".as_bytes()),
    ]
}

#[test]
fn the_container_lists_and_reads_its_files() {
    let data = archive(&document_files());
    let mut container = HwpxContainer::open(&data).unwrap();
    assert!(container.file_exists("mimetype"));
    assert!(!container.file_exists("Contents"));
    assert!(!container.file_exists("contents/header.xml"));
    assert_eq!(
        container.list_files("Contents/s"),
        vec!["Contents/section10.xml", "Contents/section2.xml", "Contents/section0.xml"]
    );
    assert_eq!(container.list_files("nothing"), Vec::<String>::new());
    assert_eq!(container.get_bindata_files(), vec!["BinData/image1.png", "BinData/photo"]);
    assert_eq!(container.read_file("BinData/photo").unwrap(), b"hello");
    assert_eq!(container.read_file_string("Preview/PrvText.txt").unwrap(), "Hello 미리보기");
    assert!(container.verify_mimetype().is_ok());
}

#[test]
fn section_files_come_by_ascending_number() {
    let data = archive(&[
        ("Contents/section10.xml", b"".as_slice()),
        ("Contents/sectionX.xml", b"".as_slice()),
        ("Contents/section2.xml", b"".as_slice()),
        ("Contents/section0.xml", b"".as_slice()),
        ("Contents/section2.txt", b"".as_slice()),
        ("Other/section1.xml", b"".as_slice()),
        ("Contents/section.xml", b"".as_slice()),
    ]);
    let container = HwpxContainer::open(&data).unwrap();
    assert_eq!(
        container.get_section_files(),
        vec![
            "Contents/sectionX.xml",
            "Contents/section0.xml",
            "Contents/section.xml",
            "Contents/section2.xml",
            "Contents/section10.xml",
        ]
    );
}

#[test]
fn reading_fails_by_what_is_wrong_with_the_file() {
    let data = archive(&[("bytes.bin", b"\xff\xfe\x00".as_slice())]);
    let mut container = HwpxContainer::open(&data).unwrap();
    let missing = container.read_file("absent.txt").unwrap_err();
    assert_eq!(missing.kind(), ErrorKind::FileNotFound);
    assert_eq!(missing.message(), "absent.txt");
    assert_eq!(container.read_file_string("absent.txt").unwrap_err().kind(), ErrorKind::FileNotFound);
    assert_eq!(container.read_file_string("bytes.bin").unwrap_err().kind(), ErrorKind::Encoding);
    assert_eq!(container.read_file("bytes.bin").unwrap(), b"\xff\xfe\x00");
    assert_eq!(HwpxContainer::open(b"no archive").err().map(|e| e.kind()), Some(ErrorKind::ZipParse));
}

#[test]
fn the_mimetype_must_name_the_document_type() {
    let accepted: [&[u8]; 4] = [b"application/hwp+zip", b"  application/owpml \n", b"hwp", b"x-\xffhwp"];
    for content in accepted {
        let data = archive(&[("mimetype", content)]);
        assert!(HwpxContainer::open(&data).unwrap().verify_mimetype().is_ok());
    }
    let data = archive(&[("other", b"".as_slice())]);
    assert!(HwpxContainer::open(&data).unwrap().verify_mimetype().is_ok());
    let data = archive(&[("mimetype", b" application/zip ".as_slice())]);
    let error = HwpxContainer::open(&data).unwrap().verify_mimetype().unwrap_err();
    assert_eq!(error.kind(), ErrorKind::InvalidStructure);
    assert_eq!(
        error.message(),
        "Invalid mimetype: expected 'application/hwp+zip' or similar, got 'application/zip'"
    );
}

#[test]
fn the_version_comes_from_the_version_part() {
    let version = |content: &[u8]| {
        let data = archive(&[("version.xml", content)]);
        parse_version_xml(&mut HwpxContainer::open(&data).unwrap())
    };
    assert_eq!(version(br#"<version major="5"/>"#).unwrap(), 0x0501_0000);
    assert_eq!(version(br#"<opf:version oversion="1" app-version="7"></opf:version>"#).unwrap(), 0x0701_0000);
    assert_eq!(version(br#"<a><version major="3"/><version major="x"/><other major="9"/></a>"#).unwrap(), 0x0301_0000);
    assert_eq!(version(br#"<version major="258"/>"#).unwrap(), 0x0201_0000);
    assert_eq!(version(br#"<hv:HCFVersion major="9"/>"#).unwrap(), 0x0501_0000);
    assert_eq!(version(br#"<version major="5"></wrong>"#).unwrap_err().kind(), ErrorKind::XmlParse);
    let data = archive(&[("other", b"".as_slice())]);
    let mut container = HwpxContainer::open(&data).unwrap();
    assert_eq!(parse_version_xml(&mut container).unwrap_err().kind(), ErrorKind::FileNotFound);
    let header = parse_file_header(&mut container).unwrap();
    assert_eq!(header.version, 0x0501_0000);
    assert_eq!(header.signature, "HWP Document File");
    assert_eq!(header.reserved, vec![0u8; 207]);
    assert_eq!((header.document_flags, header.license_flags, header.encrypt_version, header.kogl_country), (0, 0, 0, 0));
}

#[test]
fn the_document_information_needs_a_header_part_that_is_xml() {
    let data = archive(&[("Contents/header.xml", HEADER.as_bytes())]);
    let info = parse_doc_info(&mut HwpxContainer::open(&data).unwrap()).unwrap();
    let properties = info.document_properties.unwrap();
    assert_eq!(properties.area_count, 1);
    assert_eq!(properties.start_number_info, 0);
    assert_eq!(properties.page_start_number, 1);
    assert_eq!(properties.table_start_number, 1);
    assert_eq!(properties.character_position, 0);
    assert!(info.bin_data.is_empty());

    let data = archive(&[("Contents/header.xml", b"<head><a></b></head>".as_slice())]);
    let error = parse_doc_info(&mut HwpxContainer::open(&data).unwrap()).unwrap_err();
    assert_eq!(error.kind(), ErrorKind::XmlParse);
    assert!(error.message().starts_with("Error parsing header.xml: "));

    let mut info = DocInfo::default();
    assert_eq!(parse_header_xml_content("<a></b>", &mut info).unwrap_err().kind(), ErrorKind::XmlParse);
    assert!(info.document_properties.is_none());
    assert!(parse_header_xml_content("<a/>", &mut info).is_ok());
    assert_eq!(info.document_properties.as_ref().map(|p| p.endnote_start_number), Some(1));
}

#[test]
fn sections_are_read_in_the_order_of_their_numbers() {
    let data = archive(&document_files());
    let body = parse_sections(&mut HwpxContainer::open(&data).unwrap()).unwrap();
    let texts: Vec<(u16, Vec<ParagraphRecord>)> = body
        .sections
        .iter()
        .map(|section| (section.index, section.paragraphs[0].records.clone()))
        .collect();
    let run = |text: &str| vec![ParagraphRecord::TextRun { text: text.to_string(), markers: vec![] }];
    assert_eq!(texts, vec![(0, run("Hello")), (1, run("two & a half")), (2, run("ten"))]);

    let data = archive(&[("Contents/header.xml", HEADER.as_bytes())]);
    let error = parse_sections(&mut HwpxContainer::open(&data).unwrap()).unwrap_err();
    assert_eq!(error.kind(), ErrorKind::InvalidStructure);
    assert_eq!(error.message(), "No section files found in Contents/");

    let data = archive(&[
        ("Contents/section0.xml", SECTION.as_bytes()),
        ("Contents/section1.xml", b"<a><b></a>".as_slice()),
    ]);
    let error = parse_sections(&mut HwpxContainer::open(&data).unwrap()).unwrap_err();
    assert_eq!(error.kind(), ErrorKind::XmlParse);
    let data = archive(&[("Contents/section0.xml", b"\xff".as_slice())]);
    let error = parse_sections(&mut HwpxContainer::open(&data).unwrap()).unwrap_err();
    assert_eq!(error.kind(), ErrorKind::Encoding);
}

#[test]
fn embedded_files_are_kept_in_base64_under_their_names() {
    let data = archive(&[
        ("BinData/", b"".as_slice()),
        ("BinData/image1.png", b"\x89PNG\r\n\x1a\n".as_slice()),
        ("BinData/photo", b"hello".as_slice()),
        ("BinData/sub/pic.tar.gz", b"".as_slice()),
        ("Other/x.png", b"x".as_slice()),
    ]);
    let bin_data = parse_bindata(&mut HwpxContainer::open(&data).unwrap()).unwrap();
    let item = |index: u16, data: &str, name: Option<&str>| BinaryDataItem {
        index,
        data: data.to_string(),
        name: name.map(|n| n.to_string()),
    };
    assert_eq!(
        bin_data.items,
        vec![
            item(1, "iVBORw0KGgo=", Some("image1")),
            item(2, "aGVsbG8=", None),
            item(3, "", Some("pic.tar")),
        ]
    );
    assert_eq!(decode_image("aGVsbG8=").unwrap(), b"hello");
    assert_eq!(decode_image("iVBORw0KGgo=").unwrap(), b"\x89PNG\r\n\x1a\n");
    assert_eq!(decode_image("").unwrap(), b"");
    assert_eq!(decode_image("not base64!").unwrap_err().kind(), ErrorKind::Internal);
}

#[test]
fn a_document_is_read_whole_or_not_at_all() {
    let data = archive(&document_files());
    let document: HwpDocument = parse(&data).unwrap();
    assert_eq!(document.file_header.version, 0x0501_0000);
    assert!(document.doc_info.document_properties.is_some());
    assert_eq!(document.body_text.sections.len(), 3);
    assert_eq!(document.bin_data.items.len(), 2);
    assert_eq!(document.bin_data.items[0].name, Some("image1".to_string()));
    assert_eq!(document.preview_text.as_ref().map(|p| p.text.as_str()), Some("Hello 미리보기"));

    let kind = |files: &[(&str, &[u8])]| parse(&archive(files)).unwrap_err().kind();
    assert_eq!(parse(b"PK but no archive").unwrap_err().kind(), ErrorKind::ZipParse);
    let mut files = document_files();
    files[0] = ("mimetype", b"text/plain".as_slice());
    assert_eq!(kind(&files), ErrorKind::InvalidStructure);
    let mut files = document_files();
    files.remove(2);
    assert_eq!(kind(&files), ErrorKind::FileNotFound);
    let mut files = document_files();
    files[2] = ("Contents/header.xml", b"<a></b>".as_slice());
    assert_eq!(kind(&files), ErrorKind::XmlParse);
    let mut files = document_files();
    files[4] = ("Contents/section2.xml", b"<a></b>".as_slice());
    assert_eq!(kind(&files), ErrorKind::XmlParse);
    let files: Vec<(&str, &[u8])> = document_files().into_iter().filter(|f| !f.0.contains("section")).collect();
    assert_eq!(kind(&files), ErrorKind::InvalidStructure);

    let mut files = document_files();
    files.remove(0);
    files.remove(0);
    files.pop();
    let bare = parse(&archive(&files)).unwrap();
    assert_eq!(bare.file_header.version, 0x0501_0000);
    assert!(bare.preview_text.is_none());
    let mut files = document_files();
    files[9] = ("Preview/PrvText.txt", b"\xff".as_slice());
    assert!(parse(&archive(&files)).unwrap().preview_text.is_none());
}

#[test]
fn a_document_renders_in_the_order_of_its_parts() {
    let section = r#"<s>
      <p><t>first</t></p>
      <p><tbl><tr>
        <tc><cellAddr colAddr="0" rowAddr="0"/><p><t>a|b</t></p></tc>
        <tc><cellAddr colAddr="1" rowAddr="0"/><p><t>c</t></p></tc>
      </tr></tbl></p>
      <p><pic><img binaryItemIDRef="image1"/></pic><pic><img binaryItemIDRef="nowhere"/></pic></p>
      <p><t>x &lt; y</t></p>
    </s>"#;
    let data = archive(&[
        ("Contents/header.xml", HEADER.as_bytes()),
        ("Contents/section0.xml", section.as_bytes()),
        ("BinData/image1.jpg", b"\xff\xd8\xff\xe0".as_slice()),
    ]);
    let document = parse(&data).unwrap();
    let mut options = MarkdownOptions {
        image_output_dir: None,
        use_html: None,
        include_version: None,
        include_page_info: None,
        failed_images: vec![],
    };
    assert_eq!(
        to_markdown(&document, &options),
        "first\n\n\n| a\\|b | c |\n|---|---|\n\n\n![이미지](data:image/jpeg;base64,/9j/4A==)\n\nx < y"
    );
    options.image_output_dir = Some("out".to_string());
    assert_eq!(
        to_html(&document, &options),
        "<!DOCTYPE html>\n<html>\n<head>\n<meta charset=\"UTF-8\">\n</head>\n<body>\n\
         <p>first</p>\n\
         \n<table border=\"1\" cellpadding=\"5\" cellspacing=\"0\" style=\"border-collapse: collapse;\">\n\
         \x20 <tr>\n    <td>a|b</td>\n    <td>c</td>\n  </tr>\n</table>\n\
         <img src=\"images/BIN0000.jpg\">\n\
         <p>x &lt; y</p>\n\
         </body>\n</html>\n"
    );
}

#[test]
fn a_document_has_a_header_of_its_own() {
    let header = FileHeader {
        signature: "HWP Document File".to_string(),
        version: 1,
        document_flags: 0,
        license_flags: 0,
        encrypt_version: 0,
        kogl_country: 0,
        reserved: vec![],
    };
    let document = HwpDocument::new(header.clone());
    assert_eq!(document.file_header, header);
    assert!(document.body_text.sections.is_empty());
    assert!(document.bin_data.items.is_empty());
    assert!(document.doc_info.document_properties.is_none());
    assert!(document.preview_text.is_none());
}

#[test]
fn a_file_that_cannot_be_unpacked_is_an_io_error() {
    let mut writer = zip::ZipWriter::new(std::io::Cursor::new(Vec::new()));
    let stored = zip::write::SimpleFileOptions::default()
        .compression_method(zip::CompressionMethod::Stored);
    writer.start_file("Contents/section0.xml", stored).unwrap();
    writer.write_all(b"<s><p><t>unharmed text</t></p></s>").unwrap();
    let mut data = writer.finish().unwrap().into_inner();
    let at = data.windows(8).position(|w| w == b"unharmed").unwrap();
    data[at] = b'U';
    let mut container = HwpxContainer::open(&data).unwrap();
    assert!(container.file_exists("Contents/section0.xml"));
    assert_eq!(container.read_file("Contents/section0.xml").unwrap_err().kind(), ErrorKind::Io);
    assert_eq!(container.read_file_string("Contents/section0.xml").unwrap_err().kind(), ErrorKind::Io);
    assert_eq!(parse_sections(&mut container).unwrap_err().kind(), ErrorKind::Io);
}
