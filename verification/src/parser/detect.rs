//! Detection of the container format of a document file from its leading bytes.

use vstd::prelude::*;

verus! {

/// The container formats a document file can have.
#[derive(Debug, Clone, Copy, PartialEq, Eq, Structural)]
pub enum FileFormat {
    /// HWP 5.0: a compound-file binary container.
    Hwp5,
    /// HWPX: a ZIP archive of XML parts.
    Hwpx,
    /// Anything else.
    Unknown,
}

/// The eight bytes that open a compound-file binary container.
pub open spec fn cfb_magic() -> Seq<u8> {
    seq![0xD0u8, 0xCFu8, 0x11u8, 0xE0u8, 0xA1u8, 0xB1u8, 0x1Au8, 0xE1u8]
}

/// The four bytes that open a ZIP archive.
pub open spec fn zip_magic() -> Seq<u8> {
    seq![0x50u8, 0x4Bu8, 0x03u8, 0x04u8]
}

/// `data` begins with the bytes of `magic`.
pub open spec fn starts_with_bytes(data: Seq<u8>, magic: Seq<u8>) -> bool {
    data.len() >= magic.len() && data.subrange(0, magic.len() as int) == magic
}

/// The format that the leading bytes of `data` announce.
pub open spec fn format_of(data: Seq<u8>) -> FileFormat {
    if starts_with_bytes(data, cfb_magic()) {
        FileFormat::Hwp5
    } else if starts_with_bytes(data, zip_magic()) {
        FileFormat::Hwpx
    } else {
        FileFormat::Unknown
    }
}

/// Detects the container format of a file from its first bytes.
pub fn detect_format(data: &[u8]) -> (format: FileFormat)
    ensures
        format == format_of(data@),
{
    if data.len() >= 8 && data[0] == 0xD0 && data[1] == 0xCF && data[2] == 0x11 && data[3] == 0xE0
        && data[4] == 0xA1 && data[5] == 0xB1 && data[6] == 0x1A && data[7] == 0xE1 {
        assert(data@.subrange(0, 8) =~= cfb_magic());
        return FileFormat::Hwp5;
    }
    if data.len() >= 4 && data[0] == 0x50 && data[1] == 0x4B && data[2] == 0x03 && data[3] == 0x04 {
        assert(data@.subrange(0, 4) =~= zip_magic());
        return FileFormat::Hwpx;
    }
    FileFormat::Unknown
}

} // verus!
