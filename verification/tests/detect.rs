use hwp_core::parser::{detect_format, FileFormat};

#[test]
fn test_detect_hwp5() {
    let data = [0xD0, 0xCF, 0x11, 0xE0, 0xA1, 0xB1, 0x1A, 0xE1, 0x00, 0x00];
    assert_eq!(detect_format(&data), FileFormat::Hwp5);
}

#[test]
fn test_detect_hwpx() {
    let data = [0x50, 0x4B, 0x03, 0x04, 0x00, 0x00, 0x00, 0x00];
    assert_eq!(detect_format(&data), FileFormat::Hwpx);
}

#[test]
fn test_detect_unknown() {
    let data = [0x00, 0x00, 0x00, 0x00];
    assert_eq!(detect_format(&data), FileFormat::Unknown);
}

#[test]
fn test_detect_empty() {
    let data: [u8; 0] = [];
    assert_eq!(detect_format(&data), FileFormat::Unknown);
}

#[test]
fn test_detect_too_short() {
    let data = [0xD0, 0xCF];
    assert_eq!(detect_format(&data), FileFormat::Unknown);
}
