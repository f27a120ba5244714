//! The binary data of a container: the files in `BinData/`, held in
//! base64.

use vstd::prelude::*;
use crate::document::bindata::{BinData, BinaryDataItem, BinaryDataItemModel};
use crate::document::bodytext::lemma_deep_view_push;
use crate::encoding::{base64_text, encode_base64};
use crate::error::HwpError;
use crate::parser::hwpx::container::{
    names_with_prefix, zip_entry, EntryModel, HwpxContainer,
};
use crate::text::{
    after_last, before_last, chars_of, ends_with, find_last, has_suffix, is_text, lowered,
    push_range, string_of_range, to_lower,
};

verus! {

/// The name that the document refers to an embedded file by: the name of
/// the file without its extension, where it has one.
pub open spec fn item_name(path: Seq<char>) -> Option<Seq<char>> {
    before_last(after_last(path, '/'), '.')
}

/// The embedded files that the first `n` of `files` give. A name that ends
/// in `/` is a directory and gives none, and so does a file that cannot be
/// read. Each item keeps the place of its file among `files`, as far as 16
/// bits hold it.
pub open spec fn items_of(data: Seq<u8>, files: Seq<Seq<char>>, n: int) -> Seq<BinaryDataItemModel>
    decreases n,
{
    if n <= 0 {
        Seq::empty()
    } else {
        let before = items_of(data, files, n - 1);
        let path = files[n - 1];
        if has_suffix(path, "/"@) {
            before
        } else {
            match zip_entry(data, path) {
                EntryModel::Data(bytes) => before.push(
                    BinaryDataItemModel {
                        index: ((n - 1) % 65536) as u16,
                        data: base64_text(bytes),
                        name: item_name(path),
                    },
                ),
                _ => before,
            }
        }
    }
}

/// The embedded files of the container that `data` is.
pub open spec fn bindata_of(data: Seq<u8>, names: Seq<Seq<char>>) -> Seq<BinaryDataItemModel> {
    let files = names_with_prefix(names, names.len() as int, "BinData/"@);
    items_of(data, files, files.len() as int)
}

/// The name that the document refers to the embedded file at `path` by.
pub fn name_of_item(path: &str) -> (name: Option<String>)
    ensures
        match name {
            Some(name) => item_name(path@) == Some(name@),
            None => item_name(path@) is None,
        },
{
    let chars = chars_of(path);
    let from = match find_last(&chars, '/') {
        Some(i) => i + 1,
        None => 0,
    };
    let mut file: Vec<char> = Vec::new();
    push_range(&mut file, &chars, from, chars.len());
    assert(file@ =~= after_last(path@, '/'));
    match find_last(&file, '.') {
        Some(dot) => {
            let name = string_of_range(&file, 0, dot);
            Some(name)
        },
        None => None,
    }
}

/// Reads the embedded files of the container.
pub fn parse_bindata(container: &mut HwpxContainer) -> (result: Result<BinData, HwpError>)
    ensures
        final(container).source() == old(container).source(),
        match result {
            Ok(bin_data) => bin_data@ == bindata_of(old(container).source(), old(container).names()),
            Err(_) => false,
        },
{
    let files = container.get_bindata_files();
    let ghost data = container.source();
    let ghost paths = files.deep_view();
    let mut items: Vec<BinaryDataItem> = Vec::new();
    let mut i: usize = 0;
    while i < files.len()
        invariant
            i <= files.len(),
            paths == files.deep_view(),
            data == container.source(),
            items.deep_view() == items_of(data, paths, i as int),
        decreases files.len() - i,
    {
        let path = files[i].as_str();
        let chars = chars_of(path);
        if !ends_with(&chars, "/") {
            match container.read_file(path) {
                Ok(bytes) => {
                    let item = BinaryDataItem {
                        index: (i % 65536) as u16,
                        data: encode_base64(&bytes),
                        name: name_of_item(path),
                    };
                    let ghost before = items;
                    items.push(item);
                    proof {
                        lemma_deep_view_push(before, items, item);
                    }
                },
                Err(_) => {},
            }
        }
        i += 1;
    }
    Ok(BinData { items })
}

/// The extension of a path: what follows its last dot, and all of the
/// path where it has no dot.
pub fn get_extension(path: &str) -> (extension: Option<&str>)
    ensures
        extension matches Some(e) && e@ == after_last(path@, '.'),
{
    let chars = chars_of(path);
    let len = path.unicode_len();
    let from = match find_last(&chars, '.') {
        Some(i) => i + 1,
        None => 0,
    };
    let extension = path.substring_char(from, len);
    Some(extension)
}

/// The MIME type that goes with the extension of a file name, whatever
/// the case of its letters `A` to `Z`; plain binary data where the
/// extension is not known.
pub open spec fn mime_type_of(extension: Seq<char>) -> Seq<char> {
    let e = lowered(extension);
    if e == "jpg"@ || e == "jpeg"@ {
        "image/jpeg"@
    } else if e == "png"@ {
        "image/png"@
    } else if e == "gif"@ {
        "image/gif"@
    } else if e == "bmp"@ {
        "image/bmp"@
    } else if e == "svg"@ {
        "image/svg+xml"@
    } else if e == "webp"@ {
        "image/webp"@
    } else if e == "tiff"@ || e == "tif"@ {
        "image/tiff"@
    } else if e == "ico"@ {
        "image/x-icon"@
    } else if e == "emf"@ {
        "image/emf"@
    } else if e == "wmf"@ {
        "image/wmf"@
    } else {
        "application/octet-stream"@
    }
}

/// The MIME type that goes with the extension of a file name.
pub fn get_mime_type(extension: &str) -> (mime_type: &'static str)
    ensures
        mime_type@ == mime_type_of(extension@),
{
    let e = to_lower(extension);
    if is_text(&e, "jpg") || is_text(&e, "jpeg") {
        "image/jpeg"
    } else if is_text(&e, "png") {
        "image/png"
    } else if is_text(&e, "gif") {
        "image/gif"
    } else if is_text(&e, "bmp") {
        "image/bmp"
    } else if is_text(&e, "svg") {
        "image/svg+xml"
    } else if is_text(&e, "webp") {
        "image/webp"
    } else if is_text(&e, "tiff") || is_text(&e, "tif") {
        "image/tiff"
    } else if is_text(&e, "ico") {
        "image/x-icon"
    } else if is_text(&e, "emf") {
        "image/emf"
    } else if is_text(&e, "wmf") {
        "image/wmf"
    } else {
        "application/octet-stream"
    }
}

} // verus!
