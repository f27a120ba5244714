//! The parts of a container that describe the document as a whole: its
//! version and its document-wide information.

use vstd::prelude::*;
use crate::document::docinfo::{default_properties, DocInfo, DocumentProperties, FileHeader};
use crate::error::{ErrorKind, HwpError};
use crate::number::{parse_number, parsed_number};
use crate::parser::hwpx::container::{text_of, EntryModel, HwpxContainer, TextEntry};
use crate::parser::hwpx::event::{Attribute, AttributeModel, EventModel, StreamEvent};
use crate::parser::hwpx::xml::{decoded, events_of, read_events};
use crate::text::{chars_of, str_is};

verus! {

/// The version of a document that names none: 5.1.0.0.
pub const DEFAULT_VERSION: u32 = 0x0501_0000;

/// The version that the number `n` of a version attribute gives: `n`, as
/// far as it fits in one byte, is the major version; the minor version is
/// 1.
pub open spec fn version_of_number(n: nat) -> u32 {
    ((n % 256) * 0x100_0000 + 0x1_0000) as u32
}

/// The version after the attributes of one version element: each
/// attribute `major`, `oversion` or `app-version` whose value is a number
/// gives the version anew.
pub open spec fn version_after_attributes(version: u32, attributes: Seq<AttributeModel>) -> u32
    decreases attributes.len(),
{
    if attributes.len() == 0 {
        version
    } else {
        let before = version_after_attributes(version, attributes.drop_last());
        let last = attributes.last();
        if last.key == "major"@ || last.key == "oversion"@ || last.key == "app-version"@ {
            match parsed_number(last.value, 0xFFFF_FFFF) {
                Some(n) => version_of_number(n),
                None => before,
            }
        } else {
            before
        }
    }
}

/// The version after the events of a version part: each element
/// `opf:version` or `version` may give it anew.
pub open spec fn version_after_events(version: u32, events: Seq<EventModel>) -> u32
    decreases events.len(),
{
    if events.len() == 0 {
        version
    } else {
        let before = version_after_events(version, events.drop_last());
        match events.last() {
            EventModel::Open { name, attributes } => if name == "opf:version"@ || name
                == "version"@ {
                version_after_attributes(before, attributes)
            } else {
                before
            },
            _ => before,
        }
    }
}

/// What reading a file as XML comes to: its events, or the kind of error
/// that reading it ends in.
pub open spec fn events_of_entry(entry: EntryModel) -> Result<Seq<EventModel>, ErrorKind> {
    match text_of(entry) {
        TextEntry::Text(content) => if decoded(content).complete {
            Ok(events_of(decoded(content).tokens))
        } else {
            Err(ErrorKind::XmlParse)
        },
        TextEntry::Missing => Err(ErrorKind::FileNotFound),
        TextEntry::Damaged => Err(ErrorKind::Io),
        TextEntry::NotText => Err(ErrorKind::Encoding),
    }
}

/// The version that the file `version.xml` gives, or the kind of error
/// that reading it ends in.
pub open spec fn version_of_entry(entry: EntryModel) -> Result<u32, ErrorKind> {
    match events_of_entry(entry) {
        Ok(events) => Ok(version_after_events(DEFAULT_VERSION, events)),
        Err(kind) => Err(kind),
    }
}

/// Reads a file of the container as XML.
pub fn read_file_events(container: &mut HwpxContainer, path: &str, label: &str) -> (result: Result<
    Vec<StreamEvent>,
    HwpError,
>)
    ensures
        final(container).source() == old(container).source(),
        match result {
            Ok(events) => events_of_entry(old(container).entry(path@)) == Ok::<
                Seq<EventModel>,
                ErrorKind,
            >(events.deep_view()),
            Err(error) => events_of_entry(old(container).entry(path@)) == Err::<
                Seq<EventModel>,
                ErrorKind,
            >(error.kind()),
        },
{
    match container.read_file_string(path) {
        Ok(content) => read_events(content.as_str(), label),
        Err(error) => Err(error),
    }
}

fn read_version_attributes(version: u32, attributes: &Vec<Attribute>) -> (out: u32)
    ensures
        out == version_after_attributes(version, attributes.deep_view()),
{
    let ghost all = attributes.deep_view();
    let mut out = version;
    let mut i: usize = 0;
    while i < attributes.len()
        invariant
            i <= attributes.len(),
            all == attributes.deep_view(),
            out == version_after_attributes(version, all.take(i as int)),
        decreases attributes.len() - i,
    {
        proof {
            assert(all.take(i + 1).drop_last() =~= all.take(i as int));
        }
        let attribute = &attributes[i];
        let key = attribute.key.as_str();
        if str_is(key, "major") || str_is(key, "oversion") || str_is(key, "app-version") {
            let value = chars_of(attribute.value.as_str());
            match parse_number(&value, 0xFFFF_FFFF) {
                Some(n) => {
                    out = ((n % 256) * 0x100_0000 + 0x1_0000) as u32;
                },
                None => {},
            }
        }
        i += 1;
    }
    assert(all.take(attributes@.len() as int) =~= all);
    out
}

/// Reads the version of the document from the events of its version
/// part.
pub fn version_of_events(events: &Vec<StreamEvent>) -> (version: u32)
    ensures
        version == version_after_events(DEFAULT_VERSION, events.deep_view()),
{
    let ghost all = events.deep_view();
    let mut version = DEFAULT_VERSION;
    let mut i: usize = 0;
    while i < events.len()
        invariant
            i <= events.len(),
            all == events.deep_view(),
            version == version_after_events(DEFAULT_VERSION, all.take(i as int)),
        decreases events.len() - i,
    {
        proof {
            assert(all.take(i + 1).drop_last() =~= all.take(i as int));
        }
        match &events[i] {
            StreamEvent::Open { name, attributes } => {
                if str_is(name.as_str(), "opf:version") || str_is(name.as_str(), "version") {
                    version = read_version_attributes(version, attributes);
                }
            },
            _ => {},
        }
        i += 1;
    }
    assert(all.take(events@.len() as int) =~= all);
    version
}

/// Reads the version of the document from the file `version.xml`.
pub fn parse_version_xml(container: &mut HwpxContainer) -> (result: Result<u32, HwpError>)
    ensures
        final(container).source() == old(container).source(),
        match result {
            Ok(version) => version_of_entry(old(container).entry("version.xml"@)) == Ok::<
                u32,
                ErrorKind,
            >(version),
            Err(error) => version_of_entry(old(container).entry("version.xml"@)) == Err::<
                u32,
                ErrorKind,
            >(error.kind()),
        },
{
    match read_file_events(container, "version.xml", "Error parsing version.xml: ") {
        Ok(events) => Ok(version_of_events(&events)),
        Err(error) => Err(error),
    }
}

/// The version that the header of a document gets: the one that the file
/// `version.xml` gives, and 5.1.0.0 where it cannot be read.
pub open spec fn header_version(entry: EntryModel) -> u32 {
    match version_of_entry(entry) {
        Ok(version) => version,
        Err(_) => DEFAULT_VERSION,
    }
}

/// The header of a document is the header of an HWPX document of the
/// version `version`.
pub open spec fn is_hwpx_header(header: FileHeader, version: u32) -> bool {
    &&& header.signature@ == "HWP Document File"@
    &&& header.version == version
    &&& header.document_flags == 0
    &&& header.license_flags == 0
    &&& header.encrypt_version == 0
    &&& header.kogl_country == 0
    &&& header.reserved@ == Seq::new(207, |i: int| 0u8)
}

/// Makes the file header of the document. A container always has one:
/// where it names no version, the header has the default one.
pub fn parse_file_header(container: &mut HwpxContainer) -> (result: Result<FileHeader, HwpError>)
    ensures
        final(container).source() == old(container).source(),
        match result {
            Ok(header) => is_hwpx_header(
                header,
                header_version(old(container).entry("version.xml"@)),
            ),
            Err(_) => false,
        },
{
    let version = match parse_version_xml(container) {
        Ok(version) => version,
        Err(_) => DEFAULT_VERSION,
    };
    let mut reserved: Vec<u8> = Vec::new();
    let mut i: usize = 0;
    while i < 207
        invariant
            i <= 207,
            reserved@ == Seq::new(i as nat, |k: int| 0u8),
        decreases 207 - i,
    {
        reserved.push(0);
        i += 1;
    }
    Ok(
        FileHeader {
            signature: "HWP Document File".to_owned(),
            version,
            document_flags: 0,
            license_flags: 0,
            encrypt_version: 0,
            kogl_country: 0,
            reserved,
        },
    )
}

/// Reads the document-wide information from the XML text of the header
/// part. The text is refused, with an `XmlParseError`, exactly when it is
/// no XML up to its end. Information that has no properties yet gets the
/// default ones.
pub fn parse_header_xml_content(content: &str, doc_info: &mut DocInfo) -> (result: Result<
    (),
    HwpError,
>)
    ensures
        match result {
            Ok(_) => decoded(content@).complete && final(doc_info).bin_data == old(
                doc_info,
            ).bin_data && final(doc_info).document_properties == Some(
                match old(doc_info).document_properties {
                    Some(properties) => properties,
                    None => default_properties(),
                },
            ),
            Err(error) => !decoded(content@).complete && error is XmlParseError && *final(doc_info)
                == *old(doc_info),
        },
{
    match read_events(content, "Error parsing header.xml: ") {
        Ok(_) => {},
        Err(error) => {
            return Err(error);
        },
    }
    if doc_info.document_properties.is_none() {
        doc_info.document_properties = Some(
            DocumentProperties {
                area_count: 1,
                start_number_info: 0,
                page_start_number: 1,
                footnote_start_number: 1,
                endnote_start_number: 1,
                image_start_number: 1,
                table_start_number: 1,
                formula_start_number: 1,
                list_id: 0,
                paragraph_id: 0,
                character_position: 0,
            },
        );
    }
    Ok(())
}

/// Reads the document-wide information from the file
/// `Contents/header.xml`.
pub fn parse_doc_info(container: &mut HwpxContainer) -> (result: Result<DocInfo, HwpError>)
    ensures
        final(container).source() == old(container).source(),
        match result {
            Ok(info) => events_of_entry(old(container).entry("Contents/header.xml"@)) is Ok
                && info.document_properties == Some(default_properties()) && info.bin_data@.len()
                == 0,
            Err(error) => events_of_entry(old(container).entry("Contents/header.xml"@)) == Err::<
                Seq<EventModel>,
                ErrorKind,
            >(error.kind()),
        },
{
    let content = match container.read_file_string("Contents/header.xml") {
        Ok(content) => content,
        Err(error) => {
            return Err(error);
        },
    };
    let mut doc_info = DocInfo::default();
    match parse_header_xml_content(content.as_str(), &mut doc_info) {
        Ok(_) => Ok(doc_info),
        Err(error) => Err(error),
    }
}

} // verus!
