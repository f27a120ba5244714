//! What the renderers share: how an image reference becomes Markdown.

use vstd::prelude::*;
use crate::document::bindata::{BinaryDataItem, BinaryDataItemModel};
use crate::document::docinfo::{BinDataRecord, BinDataRecordModel};
use crate::document::HwpDocument;
use crate::encoding::{base64_bytes, decode_base64};
use crate::error::HwpError;
use crate::number::{hex_padded, push_hex_padded};
use crate::text::{
    after_last, chars_of, find_last, has_prefix, is_text, lowered, push_range, push_str, same_text,
    starts_with, string_of, to_lower,
};
use crate::viewer::markdown::MarkdownOptions;

verus! {

/// The MIME type that the first characters of base64 data tell of: PNG,
/// JPEG and BMP data are known by how they begin, anything else is plain
/// binary data.
pub open spec fn sniffed_mime_type(base64_data: Seq<char>) -> Seq<char> {
    if has_prefix(base64_data, "iVBORw"@) {
        "image/png"@
    } else if has_prefix(base64_data, "/9j/"@) {
        "image/jpeg"@
    } else if has_prefix(base64_data, "Qk"@) {
        "image/bmp"@
    } else {
        "application/octet-stream"@
    }
}

/// Detects the MIME type of base64 data from how it begins.
pub fn detect_mime_type_from_base64(base64_data: &str) -> (mime_type: &'static str)
    ensures
        mime_type@ == sniffed_mime_type(base64_data@),
{
    let chars = chars_of(base64_data);
    if starts_with(&chars, "iVBORw") {
        "image/png"
    } else if starts_with(&chars, "/9j/") {
        "image/jpeg"
    } else if starts_with(&chars, "Qk") {
        "image/bmp"
    } else {
        "application/octet-stream"
    }
}

/// The extension that the document records for the embedded file
/// `bindata_id`: that of the first record of an embedded file with this
/// number, if there is one.
pub open spec fn recorded_extension(records: Seq<BinDataRecordModel>, bindata_id: u16) -> Option<
    Seq<char>,
>
    decreases records.len(),
{
    if records.len() == 0 {
        None
    } else {
        match records[0] {
            BinDataRecordModel::Embedding { binary_data_id, extension } => if binary_data_id
                == bindata_id {
                Some(extension)
            } else {
                recorded_extension(records.drop_first(), bindata_id)
            },
            _ => recorded_extension(records.drop_first(), bindata_id),
        }
    }
}

/// Finds the extension that the document records for an embedded file.
fn find_extension(document: &HwpDocument, bindata_id: u16) -> (found: Option<&String>)
    ensures
        match found {
            Some(extension) => recorded_extension(document.doc_info.bin_data.deep_view(), bindata_id)
                == Some(extension@),
            None => recorded_extension(document.doc_info.bin_data.deep_view(), bindata_id) is None,
        },
{
    let records = &document.doc_info.bin_data;
    let ghost all = records.deep_view();
    let mut i: usize = 0;
    assert(all.skip(0) =~= all);
    while i < records.len()
        invariant
            i <= records.len(),
            all == records.deep_view(),
            all == document.doc_info.bin_data.deep_view(),
            recorded_extension(all, bindata_id) == recorded_extension(
                all.skip(i as int),
                bindata_id,
            ),
        decreases records.len() - i,
    {
        proof {
            assert(all.skip(i as int).drop_first() =~= all.skip(i + 1));
        }
        match &records[i] {
            BinDataRecord::Embedding { binary_data_id, extension } => {
                if *binary_data_id == bindata_id {
                    return Some(extension);
                }
            },
            _ => {},
        }
        i += 1;
    }
    None
}

/// The MIME type of an image by the extension of its name: JPEG where the
/// extension is unknown or there is none.
pub open spec fn mime_type_of_extension(extension: Option<Seq<char>>) -> Seq<char> {
    match extension {
        Some(extension) => {
            let e = lowered(extension);
            if e == "jpg"@ || e == "jpeg"@ {
                "image/jpeg"@
            } else if e == "png"@ {
                "image/png"@
            } else if e == "gif"@ {
                "image/gif"@
            } else if e == "bmp"@ {
                "image/bmp"@
            } else {
                "image/jpeg"@
            }
        },
        None => "image/jpeg"@,
    }
}

/// The MIME type of the embedded file `bindata_id`, by the extension that
/// the document records for it.
pub fn get_mime_type_from_bindata_id(document: &HwpDocument, bindata_id: u16) -> (mime_type: String)
    ensures
        mime_type@ == mime_type_of_extension(
            recorded_extension(document.doc_info.bin_data.deep_view(), bindata_id),
        ),
{
    let mime_type = match find_extension(document, bindata_id) {
        Some(extension) => {
            let e = to_lower(extension.as_str());
            if is_text(&e, "jpg") || is_text(&e, "jpeg") {
                "image/jpeg"
            } else if is_text(&e, "png") {
                "image/png"
            } else if is_text(&e, "gif") {
                "image/gif"
            } else if is_text(&e, "bmp") {
                "image/bmp"
            } else {
                "image/jpeg"
            }
        },
        None => "image/jpeg",
    };
    mime_type.to_owned()
}

/// The extension of the embedded file `bindata_id`: the one that the
/// document records for it, and `jpg` where it records none.
pub open spec fn extension_of(records: Seq<BinDataRecordModel>, bindata_id: u16) -> Seq<char> {
    match recorded_extension(records, bindata_id) {
        Some(extension) => extension,
        None => "jpg"@,
    }
}

/// The extension of the embedded file `bindata_id`.
pub fn get_extension_from_bindata_id(document: &HwpDocument, bindata_id: u16) -> (extension: String)
    ensures
        extension@ == extension_of(document.doc_info.bin_data.deep_view(), bindata_id),
{
    match find_extension(document, bindata_id) {
        Some(extension) => extension.clone(),
        None => "jpg".to_owned(),
    }
}

/// The name of the file that the embedded file `bindata_id` is written to:
/// `BIN`, its number in four hexadecimal digits, a dot and its extension.
pub open spec fn image_file_name_of(records: Seq<BinDataRecordModel>, bindata_id: u16) -> Seq<
    char,
> {
    "BIN"@ + hex_padded(bindata_id as nat, 4) + seq!['.'] + extension_of(records, bindata_id)
}

/// The name of the file that the embedded file `bindata_id` is written to.
pub fn image_file_name(document: &HwpDocument, bindata_id: u16) -> (name: String)
    ensures
        name@ == image_file_name_of(document.doc_info.bin_data.deep_view(), bindata_id),
{
    let mut out: Vec<char> = Vec::new();
    push_str(&mut out, "BIN");
    push_hex_padded(&mut out, bindata_id as u64, 4);
    out.push('.');
    let extension = get_extension_from_bindata_id(document, bindata_id);
    push_str(&mut out, extension.as_str());
    string_of(&out)
}

/// The address of an image: its file in the directory `images` where
/// `linked` is set, and else a data URI with the MIME type that the data
/// tell of.
pub open spec fn image_address(
    records: Seq<BinDataRecordModel>,
    bindata_id: u16,
    base64_data: Seq<char>,
    linked: bool,
) -> Seq<char> {
    if linked {
        "images/"@ + after_last(image_file_name_of(records, bindata_id), '/')
    } else {
        "data:"@ + sniffed_mime_type(base64_data) + ";base64,"@ + base64_data
    }
}

/// The address of an image.
///
/// `linked` says that the caller has written the image to its file, under
/// the name that `image_file_name` gives.
pub fn image_url(document: &HwpDocument, bindata_id: u16, base64_data: &str, linked: bool) -> (url:
    String)
    ensures
        url@ == image_address(
            document.doc_info.bin_data.deep_view(),
            bindata_id,
            base64_data@,
            linked,
        ),
{
    let mut out: Vec<char> = Vec::new();
    if linked {
        push_str(&mut out, "images/");
        let name = image_file_name(document, bindata_id);
        let chars = chars_of(name.as_str());
        let from = match find_last(&chars, '/') {
            Some(i) => i + 1,
            None => 0,
        };
        push_range(&mut out, &chars, from, chars.len());
    } else {
        push_str(&mut out, "data:");
        push_str(&mut out, detect_mime_type_from_base64(base64_data));
        push_str(&mut out, ";base64,");
        push_str(&mut out, base64_data);
    }
    string_of(&out)
}

/// The Markdown of an image: an image link to its address.
pub open spec fn image_markdown(
    records: Seq<BinDataRecordModel>,
    bindata_id: u16,
    base64_data: Seq<char>,
    linked: bool,
) -> Seq<char> {
    "![이미지]("@ + image_address(records, bindata_id, base64_data, linked) + seq![')']
}

/// Renders an image as Markdown: as a link to its file in the directory
/// `images` where `linked` is set, and else as a data URI.
pub fn format_image_markdown(
    document: &HwpDocument,
    bindata_id: u16,
    base64_data: &str,
    linked: bool,
) -> (markdown: String)
    ensures
        markdown@ == image_markdown(
            document.doc_info.bin_data.deep_view(),
            bindata_id,
            base64_data@,
            linked,
        ),
{
    let mut out: Vec<char> = Vec::new();
    push_str(&mut out, "![이미지](");
    let url = image_url(document, bindata_id, base64_data, linked);
    push_str(&mut out, url.as_str());
    out.push(')');
    string_of(&out)
}

/// The embedded file that a reference names: the first one of that name.
pub open spec fn referenced_item(items: Seq<BinaryDataItemModel>, identifier: Seq<char>) -> Option<
    BinaryDataItemModel,
>
    decreases items.len(),
{
    if items.len() == 0 {
        None
    } else if items[0].name == Some(identifier) {
        Some(items[0])
    } else {
        referenced_item(items.drop_first(), identifier)
    }
}

/// Finds the embedded file that a reference names.
pub fn find_referenced_item<'a>(document: &'a HwpDocument, identifier: &str) -> (found: Option<
    &'a BinaryDataItem,
>)
    ensures
        match found {
            Some(item) => referenced_item(document.bin_data@, identifier@) == Some(item@),
            None => referenced_item(document.bin_data@, identifier@) is None,
        },
{
    let items = &document.bin_data.items;
    let wanted = chars_of(identifier);
    let ghost all = items.deep_view();
    let mut i: usize = 0;
    assert(all.skip(0) =~= all);
    while i < items.len()
        invariant
            i <= items.len(),
            all == items.deep_view(),
            all == document.bin_data@,
            wanted@ == identifier@,
            referenced_item(all, identifier@) == referenced_item(all.skip(i as int), identifier@),
        decreases items.len() - i,
    {
        proof {
            assert(all.skip(i as int).drop_first() =~= all.skip(i + 1));
        }
        let same = match &items[i].name {
            Some(name) => {
                let chars = chars_of(name.as_str());
                same_text(&chars, &wanted)
            },
            None => false,
        };
        if same {
            return Some(&items[i]);
        }
        i += 1;
    }
    None
}

/// The Markdown of a reference to an image, where the document holds the
/// image.
pub open spec fn referenced_image_markdown(
    items: Seq<BinaryDataItemModel>,
    records: Seq<BinDataRecordModel>,
    identifier: Seq<char>,
    options: MarkdownOptions,
) -> Option<Seq<char>> {
    match referenced_item(items, identifier) {
        Some(item) => Some(
            image_markdown(records, item.index, item.data, options.links(item.index)),
        ),
        None => None,
    }
}

/// Renders a reference to an image as Markdown. A reference to an image
/// that the document does not hold renders as nothing.
pub fn convert_hwpx_image_to_markdown(
    binary_item_ref: &str,
    document: &HwpDocument,
    options: &MarkdownOptions,
) -> (markdown: Option<String>)
    ensures
        match markdown {
            Some(text) => referenced_image_markdown(
                document.bin_data@,
                document.doc_info.bin_data.deep_view(),
                binary_item_ref@,
                *options,
            ) == Some(text@),
            None => referenced_image_markdown(
                document.bin_data@,
                document.doc_info.bin_data.deep_view(),
                binary_item_ref@,
                *options,
            ) is None,
        },
{
    match find_referenced_item(document, binary_item_ref) {
        Some(item) => {
            let linked = options.links_image(item.index);
            Some(format_image_markdown(document, item.index, item.data.as_str(), linked))
        },
        None => None,
    }
}

/// Reads the bytes of an image from its base64 text. A text that is no
/// base64 is refused with an `InternalError`.
pub fn decode_image(base64_data: &str) -> (result: Result<Vec<u8>, HwpError>)
    ensures
        match result {
            Ok(bytes) => base64_bytes(base64_data@) == Some(bytes@),
            Err(error) => base64_bytes(base64_data@) is None && error is InternalError,
        },
{
    match decode_base64(base64_data) {
        Some(bytes) => Ok(bytes),
        None => Err(HwpError::InternalError { message: "Failed to decode base64".to_owned() }),
    }
}

} // verus!
