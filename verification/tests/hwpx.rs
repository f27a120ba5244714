use hwp_core::error::ErrorKind;
use hwp_core::parser::hwpx::bindata::{get_extension, get_mime_type};
use hwp_core::parser::hwpx::container::extract_section_number;
use hwp_core::parser::hwpx::parse;
use hwp_core::parser::HwpParser;

#[test]
fn test_get_extension() {
    assert_eq!(get_extension("BinData/image1.png"), Some("png"));
    assert_eq!(get_extension("BinData/photo.jpeg"), Some("jpeg"));
    assert_eq!(get_extension("noextension"), Some("noextension"));
}

#[test]
fn test_get_mime_type() {
    assert_eq!(get_mime_type("png"), "image/png");
    assert_eq!(get_mime_type("JPG"), "image/jpeg");
    assert_eq!(get_mime_type("unknown"), "application/octet-stream");
}

#[test]
fn test_extract_section_number() {
    assert_eq!(extract_section_number("Contents/section0.xml"), Some(0));
    assert_eq!(extract_section_number("Contents/section10.xml"), Some(10));
    assert_eq!(extract_section_number("Contents/header.xml"), None);
}

#[test]
fn test_parse_invalid_data() {
    // Not a valid ZIP file
    let result = parse(&[0x00, 0x01, 0x02, 0x03]);
    assert!(result.is_err());
}

#[test]
fn test_parse_empty_zip() {
    // Minimal valid ZIP file (empty)
    let minimal_zip: &[u8] = &[
        0x50, 0x4b, 0x05, 0x06, // End of central directory signature
        0x00, 0x00, // Number of this disk
        0x00, 0x00, // Disk where central directory starts
        0x00, 0x00, // Number of central directory records on this disk
        0x00, 0x00, // Total number of central directory records
        0x00, 0x00, 0x00, 0x00, // Size of central directory
        0x00, 0x00, 0x00, 0x00, // Offset of start of central directory
        0x00, 0x00, // Comment length
    ];
    let result = parse(minimal_zip);
    // Should fail because no section files
    assert!(result.is_err());
}

#[test]
fn parse_refuses_bytes_that_are_no_archive_as_such() {
    let error = parse(&[0x00, 0x01, 0x02, 0x03]).unwrap_err();
    assert_eq!(error.kind(), ErrorKind::ZipParse);
}

#[test]
fn the_reader_takes_a_file_by_how_it_begins() {
    let parser = HwpParser::new();
    let cfb = [0xD0, 0xCF, 0x11, 0xE0, 0xA1, 0xB1, 0x1A, 0xE1, 0x00];
    assert_eq!(parser.parse(&cfb).unwrap_err().kind(), ErrorKind::Internal);
    assert_eq!(parser.parse(b"plain text").unwrap_err().kind(), ErrorKind::Internal);
    assert_eq!(parser.parse(&[]).unwrap_err().kind(), ErrorKind::Internal);
    assert_eq!(parser.parse(&[0x50, 0x4B, 0x03, 0x04, 0, 0]).unwrap_err().kind(), ErrorKind::ZipParse);
}
