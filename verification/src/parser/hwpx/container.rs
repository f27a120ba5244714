//! The container of an HWPX document: a ZIP archive, read by the `zip`
//! crate.
//!
//! The archive's work is not verified here. It is described: the bytes of
//! an archive name its files, in the order of its directory, and give for
//! each name what reading that file comes to. The functions below are
//! verified against that description.

use vstd::prelude::*;
use vstd::utf8::{decode_utf8, valid_utf8};
use crate::document::bodytext::{lemma_deep_view_insert, lemma_deep_view_push};
use crate::error::HwpError;
use crate::number::{parse_number, parsed_number};
use crate::text::{
    after_last, chars_of, contains, contains_text, ends_with, find_last, has_prefix, has_suffix,
    push_range, starts_with, str_is, trim_bounds, trimmed,
};

verus! {

/// `zip::ZipArchive`: an archive that is open for reading. The library
/// holds it and hands it to the functions below; it does not look into it.
#[verifier::external_type_specification]
#[verifier::external_body]
#[verifier::reject_recursive_types(R)]
pub struct ExZipArchive<R>(zip::ZipArchive<R>);

/// `std::io::Cursor`: what the archive reads the bytes through.
#[verifier::external_type_specification]
#[verifier::external_body]
#[verifier::reject_recursive_types(T)]
pub struct ExCursor<T>(std::io::Cursor<T>);

/// `zip::result::ZipError`: why bytes could not be opened as an archive.
#[verifier::external_type_specification]
#[verifier::external_body]
pub struct ExZipError(zip::result::ZipError);

/// What reading one file of an archive comes to.
pub enum EntryModel {
    /// The archive cannot hand out a file of that name.
    Missing,
    /// The file cannot be unpacked.
    Damaged,
    /// The bytes of the file.
    Data(Seq<u8>),
}

/// What reading one file of an archive came to.
pub enum EntryRead {
    /// The archive cannot hand out a file of that name.
    Missing,
    /// The file cannot be unpacked; with what the archive says of it.
    Damaged(String),
    /// The bytes of the file.
    Data(Vec<u8>),
}

impl View for EntryRead {
    type V = EntryModel;

    open spec fn view(&self) -> EntryModel {
        match self {
            EntryRead::Missing => EntryModel::Missing,
            EntryRead::Damaged(_) => EntryModel::Damaged,
            EntryRead::Data(bytes) => EntryModel::Data(bytes@),
        }
    }
}

/// The bytes that an archive reads from.
pub uninterp spec fn archive_source(archive: zip::ZipArchive<std::io::Cursor<&[u8]>>) -> Seq<u8>;

/// The names of the files of the ZIP archive that `data` is, in the order
/// of its directory; none where `data` is no ZIP archive.
pub uninterp spec fn zip_names(data: Seq<u8>) -> Option<Seq<Seq<char>>>;

/// How many files the ZIP archive that `data` is names.
pub open spec fn name_count(data: Seq<u8>) -> Option<nat> {
    match zip_names(data) {
        Some(names) => Some(names.len()),
        None => None,
    }
}

/// What reading the file `path` of the ZIP archive `data` comes to.
pub uninterp spec fn zip_entry(data: Seq<u8>, path: Seq<char>) -> EntryModel;

/// `ZipArchive::new` on the bytes: an archive that reads from them, or an
/// error where they are no ZIP archive.
#[verifier::external_body]
fn open_archive<'a>(data: &'a [u8]) -> (result: Result<
    zip::ZipArchive<std::io::Cursor<&'a [u8]>>,
    zip::result::ZipError,
>)
    ensures
        match result {
            Ok(archive) => archive_source(archive) == data@ && zip_names(data@) is Some,
            Err(_) => zip_names(data@) is None,
        },
{
    zip::ZipArchive::new(std::io::Cursor::new(data))
}

/// `ZipArchive::len`: how many files the archive names.
#[verifier::external_body]
fn archive_len(archive: &zip::ZipArchive<std::io::Cursor<&[u8]>>) -> (len: usize)
    ensures
        name_count(archive_source(*archive)) == Some(len as nat),
{
    archive.len()
}

/// `ZipArchive::name_for_index`: the name of the file at a place of the
/// directory, and none behind its end.
#[verifier::external_body]
fn archive_name(archive: &zip::ZipArchive<std::io::Cursor<&[u8]>>, index: usize) -> (name: Option<
    String,
>)
    ensures
        match name {
            Some(name) => index < zip_names(archive_source(*archive))->0.len() && name@
                == zip_names(archive_source(*archive))->0[index as int],
            None => index >= zip_names(archive_source(*archive))->0.len(),
        },
{
    archive.name_for_index(index).map(|name| name.to_string())
}

/// `ZipArchive::by_name` and then `Read::read_to_end` on the file: the
/// bytes of the file, unpacked. The archive reads from the same bytes
/// afterwards.
#[verifier::external_body]
fn read_entry(archive: &mut zip::ZipArchive<std::io::Cursor<&[u8]>>, path: &str) -> (entry: EntryRead)
    ensures
        archive_source(*final(archive)) == archive_source(*old(archive)),
        entry@ == zip_entry(archive_source(*old(archive)), path@),
{
    match archive.by_name(path) {
        Err(_) => EntryRead::Missing,
        Ok(mut file) => {
            let mut buffer = Vec::new();
            match std::io::Read::read_to_end(&mut file, &mut buffer) {
                Ok(_) => EntryRead::Data(buffer),
                Err(error) => EntryRead::Damaged(error.to_string()),
            }
        },
    }
}

/// What the archive says of an error.
#[verifier::external_body]
fn zip_error_text(error: &zip::result::ZipError) -> (text: String)
{
    error.to_string()
}

/// `String::from_utf8`: the text that the bytes encode, where they are
/// UTF-8.
#[verifier::external_body]
fn utf8_text(bytes: Vec<u8>) -> (text: Option<String>)
    ensures
        match text {
            Some(text) => valid_utf8(bytes@) && text@ == decode_utf8(bytes@),
            None => !valid_utf8(bytes@),
        },
{
    String::from_utf8(bytes).ok()
}

/// The text that bytes stand for when every part of them that is no UTF-8
/// is read as the replacement character.
pub uninterp spec fn lossy_text(bytes: Seq<u8>) -> Seq<char>;

/// `String::from_utf8_lossy`: the text of the bytes, with the replacement
/// character for what is no UTF-8.
#[verifier::external_body]
fn utf8_lossy_text(bytes: &Vec<u8>) -> (text: String)
    ensures
        text@ == lossy_text(bytes@),
{
    String::from_utf8_lossy(bytes).into_owned()
}

/// An open HWPX container.
pub struct HwpxContainer<'a> {
    archive: zip::ZipArchive<std::io::Cursor<&'a [u8]>>,
}

impl<'a> HwpxContainer<'a> {
    /// The bytes that the container was opened on.
    pub closed spec fn source(&self) -> Seq<u8> {
        archive_source(self.archive)
    }

    /// The names of the files of the container, in the order of its
    /// directory.
    pub open spec fn names(&self) -> Seq<Seq<char>> {
        zip_names(self.source())->0
    }

    /// What reading the file `path` comes to.
    pub open spec fn entry(&self, path: Seq<char>) -> EntryModel {
        zip_entry(self.source(), path)
    }

    /// Opens the container that the bytes `data` are. Bytes that are no
    /// ZIP archive are refused with a `ZipParseError`.
    pub fn open(data: &'a [u8]) -> (result: Result<Self, HwpError>)
        ensures
            match result {
                Ok(container) => zip_names(data@) is Some && container.source() == data@,
                Err(error) => zip_names(data@) is None && error is ZipParseError,
            },
    {
        match open_archive(data) {
            Ok(archive) => Ok(HwpxContainer { archive }),
            Err(error) => Err(HwpError::ZipParseError(zip_error_text(&error))),
        }
    }

    /// Reads a file of the container.
    pub fn read_file(&mut self, path: &str) -> (result: Result<Vec<u8>, HwpError>)
        ensures
            final(self).source() == old(self).source(),
            match result {
                Ok(bytes) => old(self).entry(path@) == EntryModel::Data(bytes@),
                Err(HwpError::HwpxFileNotFound { path: missing }) => old(self).entry(path@)
                    is Missing && missing@ == path@,
                Err(HwpError::Io(_)) => old(self).entry(path@) is Damaged,
                Err(_) => false,
            },
    {
        match read_entry(&mut self.archive, path) {
            EntryRead::Data(bytes) => Ok(bytes),
            EntryRead::Missing => Err(HwpError::HwpxFileNotFound { path: path.to_owned() }),
            EntryRead::Damaged(reason) => Err(HwpError::Io(reason)),
        }
    }

    /// Reads a file of the container as text. A file that is no UTF-8 is
    /// refused with an `EncodingError`.
    pub fn read_file_string(&mut self, path: &str) -> (result: Result<String, HwpError>)
        ensures
            final(self).source() == old(self).source(),
            match result {
                Ok(text) => text_of(old(self).entry(path@)) == TextEntry::Text(text@),
                Err(HwpError::HwpxFileNotFound { path: missing }) => text_of(
                    old(self).entry(path@),
                ) is Missing && missing@ == path@,
                Err(HwpError::Io(_)) => text_of(old(self).entry(path@)) is Damaged,
                Err(HwpError::EncodingError { reason }) => text_of(old(self).entry(path@))
                    is NotText,
                Err(_) => false,
            },
    {
        match self.read_file(path) {
            Ok(bytes) => match utf8_text(bytes) {
                Some(text) => Ok(text),
                None => Err(HwpError::EncodingError { reason: "invalid utf-8 sequence".to_owned() }),
            },
            Err(error) => Err(error),
        }
    }

    /// Reads the file `mimetype`, where the container has one that can be
    /// read, and refuses it unless it names a type with `hwp` or `owpml` in
    /// it.
    pub fn verify_mimetype(&mut self) -> (result: Result<(), HwpError>)
        ensures
            final(self).source() == old(self).source(),
            match result {
                Ok(_) => accepted_mimetype(old(self).entry("mimetype"@)),
                Err(error) => !accepted_mimetype(old(self).entry("mimetype"@))
                    && error is InvalidHwpxStructure,
            },
    {
        match self.read_file("mimetype") {
            Ok(content) => {
                let text = utf8_lossy_text(&content);
                accept_mimetype(text.as_str())
            },
            Err(_) => Ok(()),
        }
    }

    /// The names of all files of the container.
    fn all_names(&self) -> (names: Vec<String>)
        ensures
            zip_names(self.source()) is Some,
            names.deep_view() == self.names(),
    {
        let len = archive_len(&self.archive);
        let mut names: Vec<String> = Vec::new();
        let mut i: usize = 0;
        while i < len
            invariant
                i <= len,
                zip_names(self.source()) is Some,
                len == self.names().len(),
                names.deep_view() == self.names().take(i as int),
            decreases len - i,
        {
            match archive_name(&self.archive, i) {
                Some(name) => {
                    let ghost before = names;
                    names.push(name);
                    proof {
                        lemma_deep_view_push(before, names, name);
                    }
                },
                None => {},
            }
            i += 1;
        }
        names
    }

    /// The names of the files whose name begins with `prefix`.
    pub fn list_files(&self, prefix: &str) -> (files: Vec<String>)
        ensures
            files.deep_view() == names_with_prefix(
                self.names(),
                self.names().len() as int,
                prefix@,
            ),
    {
        let names = self.all_names();
        let ghost all = self.names();
        let mut files: Vec<String> = Vec::new();
        let mut i: usize = 0;
        while i < names.len()
            invariant
                i <= names.len(),
                all == names.deep_view(),
                files.deep_view() == names_with_prefix(all, i as int, prefix@),
            decreases names.len() - i,
        {
            let chars = chars_of(names[i].as_str());
            if starts_with(&chars, prefix) {
                let name = names[i].clone();
                let ghost before = files;
                files.push(name);
                proof {
                    lemma_deep_view_push(before, files, name);
                }
            }
            i += 1;
        }
        files
    }

    /// Whether the container has a file of the name `path`.
    pub fn file_exists(&self, path: &str) -> (exists: bool)
        ensures
            exists == self.names().contains(path@),
    {
        let names = self.all_names();
        let ghost all = self.names();
        let mut i: usize = 0;
        while i < names.len()
            invariant
                i <= names.len(),
                all == names.deep_view(),
                all == self.names(),
                forall|k: int| 0 <= k < i ==> all[k] != path@,
            decreases names.len() - i,
        {
            assert(all[i as int] == names@[i as int]@);
            if str_is(names[i].as_str(), path) {
                return true;
            }
            i += 1;
        }
        false
    }

    /// The names of the section files (`Contents/section0.xml`,
    /// `Contents/section1.xml` and so on), by ascending number. Files of
    /// the same number stay in the order of the directory; a name without
    /// a number counts as 0.
    pub fn get_section_files(&self) -> (files: Vec<String>)
        ensures
            files.deep_view() == section_files_of(self.names()),
    {
        let names = self.all_names();
        let ghost all = self.names();
        let mut files: Vec<String> = Vec::new();
        let mut numbers: Vec<usize> = Vec::new();
        let mut i: usize = 0;
        while i < names.len()
            invariant
                i <= names.len(),
                all == names.deep_view(),
                files.deep_view() == by_section_number(section_names(all, i as int)),
                numbers@.len() == files@.len(),
                forall|k: int|
                    0 <= k < numbers@.len() ==> #[trigger] numbers@[k] == section_key(files@[k]@),
            decreases names.len() - i,
        {
            let chars = chars_of(names[i].as_str());
            if starts_with(&chars, "Contents/section") && ends_with(&chars, ".xml") {
                let number = match extract_section_number(names[i].as_str()) {
                    Some(n) => n,
                    None => 0,
                };
                let mut at: usize = files.len();
                while at > 0 && numbers[at - 1] > number
                    invariant
                        at <= files@.len(),
                        numbers@.len() == files@.len(),
                        forall|k: int|
                            0 <= k < numbers@.len() ==> #[trigger] numbers@[k] == section_key(
                                files@[k]@,
                            ),
                        forall|k: int| at <= k < files@.len() ==> section_key(files@[k]@) > number,
                    decreases at,
                {
                    at -= 1;
                }
                let name = names[i].clone();
                let ghost before = files;
                proof {
                    let sorted = before.deep_view();
                    assert forall|k: int| at <= k < sorted.len() implies section_key(sorted[k])
                        > number by {
                    }
                    lemma_inserted_at(sorted, name@, at as int);
                    let found = section_names(all, i as int);
                    assert(found.push(name@).drop_last() =~= found);
                }
                files.insert(at, name);
                numbers.insert(at, number);
                proof {
                    lemma_deep_view_insert(before, files, at as int, name);
                    assert forall|k: int| 0 <= k < numbers@.len() implies #[trigger] numbers@[k]
                        == section_key(files@[k]@) by {
                    }
                }
            }
            i += 1;
        }
        files
    }

    /// The names of the files of binary data: those in `BinData/`.
    pub fn get_bindata_files(&self) -> (files: Vec<String>)
        ensures
            files.deep_view() == names_with_prefix(
                self.names(),
                self.names().len() as int,
                "BinData/"@,
            ),
    {
        self.list_files("BinData/")
    }
}

/// What reading one file of an archive as text comes to.
pub enum TextEntry {
    /// The text of the file.
    Text(Seq<char>),
    /// The archive cannot hand out a file of that name.
    Missing,
    /// The file cannot be unpacked.
    Damaged,
    /// The file is no UTF-8.
    NotText,
}

/// What a file comes to when it is read as text.
pub open spec fn text_of(entry: EntryModel) -> TextEntry {
    match entry {
        EntryModel::Missing => TextEntry::Missing,
        EntryModel::Damaged => TextEntry::Damaged,
        EntryModel::Data(bytes) => if valid_utf8(bytes) {
            TextEntry::Text(decode_utf8(bytes))
        } else {
            TextEntry::NotText
        },
    }
}

/// The text names the type of an HWPX document: without the white space
/// around it, it has `hwp` or `owpml` in it.
pub open spec fn names_document_type(text: Seq<char>) -> bool {
    contains_text(trimmed(text), "hwp"@) || contains_text(trimmed(text), "owpml"@)
}

/// The file `mimetype` is in order: it cannot be read, or it names the
/// type of an HWPX document.
pub open spec fn accepted_mimetype(entry: EntryModel) -> bool {
    match entry {
        EntryModel::Data(bytes) => names_document_type(lossy_text(bytes)),
        _ => true,
    }
}

/// Refuses the text of a file `mimetype` that does not name the type of an
/// HWPX document, with an `InvalidHwpxStructure`.
pub fn accept_mimetype(text: &str) -> (result: Result<(), HwpError>)
    ensures
        match result {
            Ok(_) => names_document_type(text@),
            Err(error) => !names_document_type(text@) && error is InvalidHwpxStructure,
        },
{
    let chars = chars_of(text);
    let (from, to) = trim_bounds(&chars);
    let mut kept: Vec<char> = Vec::new();
    push_range(&mut kept, &chars, from, to);
    if contains(&kept, "hwp") || contains(&kept, "owpml") {
        Ok(())
    } else {
        let mut reason =
            "Invalid mimetype: expected 'application/hwp+zip' or similar, got '".to_owned();
        let got = crate::text::string_of(&kept);
        reason.append(got.as_str());
        reason.append("'");
        Err(HwpError::InvalidHwpxStructure { reason })
    }
}

/// Those of the first `n` names that begin with `prefix`, in order.
pub open spec fn names_with_prefix(names: Seq<Seq<char>>, n: int, prefix: Seq<char>) -> Seq<
    Seq<char>,
>
    decreases n,
{
    if n <= 0 {
        Seq::empty()
    } else {
        let before = names_with_prefix(names, n - 1, prefix);
        if has_prefix(names[n - 1], prefix) {
            before.push(names[n - 1])
        } else {
            before
        }
    }
}

/// The number in the name of a section file: what stands between
/// `section` and `.xml` in the last part of the path, where that is a
/// number.
pub open spec fn section_number(path: Seq<char>) -> Option<nat> {
    let file = after_last(path, '/');
    if has_prefix(file, "section"@) {
        let rest = file.skip("section"@.len() as int);
        if has_suffix(rest, ".xml"@) {
            parsed_number(rest.take(rest.len() - ".xml"@.len()), usize::MAX as nat)
        } else {
            None
        }
    } else {
        None
    }
}

/// The number that a section file is ordered by.
pub open spec fn section_key(path: Seq<char>) -> nat {
    match section_number(path) {
        Some(n) => n,
        None => 0,
    }
}

/// Those of the first `n` names that are names of section files, in order.
pub open spec fn section_names(names: Seq<Seq<char>>, n: int) -> Seq<Seq<char>>
    decreases n,
{
    if n <= 0 {
        Seq::empty()
    } else {
        let before = section_names(names, n - 1);
        if has_prefix(names[n - 1], "Contents/section"@) && has_suffix(names[n - 1], ".xml"@) {
            before.push(names[n - 1])
        } else {
            before
        }
    }
}

/// `sorted` with `name` put behind the last name whose number is not
/// greater.
pub open spec fn inserted_by_number(sorted: Seq<Seq<char>>, name: Seq<char>) -> Seq<Seq<char>>
    decreases sorted.len(),
{
    if sorted.len() == 0 {
        seq![name]
    } else if section_key(sorted.last()) <= section_key(name) {
        sorted.push(name)
    } else {
        inserted_by_number(sorted.drop_last(), name).push(sorted.last())
    }
}

/// `names` by ascending section number, names of the same number in the
/// order they have in `names`.
pub open spec fn by_section_number(names: Seq<Seq<char>>) -> Seq<Seq<char>>
    decreases names.len(),
{
    if names.len() == 0 {
        Seq::empty()
    } else {
        inserted_by_number(by_section_number(names.drop_last()), names.last())
    }
}

/// The names of the section files among `names`, by ascending number.
pub open spec fn section_files_of(names: Seq<Seq<char>>) -> Seq<Seq<char>> {
    by_section_number(section_names(names, names.len() as int))
}

proof fn lemma_inserted_at(sorted: Seq<Seq<char>>, name: Seq<char>, at: int)
    requires
        0 <= at <= sorted.len(),
        forall|k: int| at <= k < sorted.len() ==> section_key(sorted[k]) > section_key(name),
        at > 0 ==> section_key(sorted[at - 1]) <= section_key(name),
    ensures
        inserted_by_number(sorted, name) == sorted.insert(at, name),
    decreases sorted.len() - at,
{
    if at < sorted.len() {
        lemma_inserted_at(sorted.drop_last(), name, at);
    }
}

/// Reads the number of a section file from its name.
pub fn extract_section_number(path: &str) -> (number: Option<usize>)
    ensures
        match number {
            Some(n) => section_number(path@) == Some(n as nat),
            None => section_number(path@) is None,
        },
{
    let chars = chars_of(path);
    let from = match find_last(&chars, '/') {
        Some(i) => i + 1,
        None => 0,
    };
    let mut file: Vec<char> = Vec::new();
    push_range(&mut file, &chars, from, chars.len());
    assert(file@ =~= after_last(path@, '/'));
    proof {
        reveal_strlit("section");
        reveal_strlit(".xml");
    }
    if !starts_with(&file, "section") {
        return None;
    }
    let mut rest: Vec<char> = Vec::new();
    push_range(&mut rest, &file, 7, file.len());
    if !ends_with(&rest, ".xml") {
        return None;
    }
    let mut digits: Vec<char> = Vec::new();
    push_range(&mut digits, &rest, 0, rest.len() - 4);
    match parse_number(&digits, usize::MAX as u64) {
        Some(n) => Some(n as usize),
        None => None,
    }
}

} // verus!
