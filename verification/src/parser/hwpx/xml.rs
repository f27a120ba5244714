//! Decoding of XML text into events, by the `quick_xml` reader.
//!
//! The reader's work is not verified here. It is described: the text of a
//! part decodes to one list of tokens, which ends at the end of the text or
//! at the first place that is no XML; a reader holds the tokens it has
//! still to give. The functions below are verified against that
//! description.

use vstd::prelude::*;
use crate::document::bodytext::lemma_deep_view_push;
use crate::error::HwpError;
use crate::parser::hwpx::event::{Attribute, AttributeModel, EventModel, StreamEvent};

verus! {

/// `quick_xml::Reader`: a reader that is at some place in an XML text. The
/// library holds it and hands it to the functions below; it does not look
/// into it.
#[verifier::external_type_specification]
#[verifier::external_body]
#[verifier::reject_recursive_types(R)]
pub struct ExReader<R>(quick_xml::Reader<R>);

/// `quick_xml::events::Event`: one event of the reader, as the reader hands
/// it out.
#[verifier::external_type_specification]
#[verifier::external_body]
pub struct ExXmlEvent<'a>(quick_xml::events::Event<'a>);

/// `quick_xml::Error`: why the reader could not go on.
#[verifier::external_type_specification]
#[verifier::external_body]
pub struct ExXmlError(quick_xml::Error);

/// The kinds of token that the reader tells apart.
#[derive(Debug, Clone, Copy, PartialEq, Eq, Structural)]
pub enum TokenKind {
    /// A start tag.
    Start,
    /// A tag of an element without content.
    Empty,
    /// An end tag.
    End,
    /// Text between tags, with its character references resolved.
    Text,
    /// The end of the text.
    Eof,
    /// A comment, a declaration, a processing instruction, a document type
    /// or a CDATA section.
    Other,
}

/// One token: its kind, and what the library reads of it. A part that the
/// kind does not have is empty.
pub struct Token {
    pub kind: TokenKind,
    /// The name of the element of a tag.
    pub name: Seq<char>,
    /// What stands in the place of attributes in a start tag, in the order
    /// written: an attribute, or nothing where the reader cannot read one.
    pub attributes: Seq<Option<AttributeModel>>,
    /// The text of a text token.
    pub text: Seq<char>,
}

/// The tokens of an XML text, up to its end or to the first place that is
/// no XML, and which of the two it was.
pub struct TokenStream {
    /// The tokens, none of them of the kind `Eof`.
    pub tokens: Seq<Token>,
    /// The tokens reach the end of the text.
    pub complete: bool,
}

/// The token that an event of the reader stands for.
pub uninterp spec fn token_of(event: quick_xml::events::Event) -> Token;

/// The tokens that a reader has still to give.
pub uninterp spec fn remaining(reader: quick_xml::Reader<&[u8]>) -> TokenStream;

/// The tokens that an XML text decodes to, with white space around text
/// trimmed.
pub uninterp spec fn decoded(content: Seq<char>) -> TokenStream;

/// `Reader::from_str`, with the reader set to trim the white space around
/// text: the reader has the tokens of `content` to give.
#[verifier::external_body]
fn open_reader<'a>(content: &'a str) -> (reader: quick_xml::Reader<&'a [u8]>)
    ensures
        remaining(reader) == decoded(content@),
{
    let mut reader = quick_xml::Reader::from_str(content);
    reader.config_mut().trim_text(true);
    reader
}

/// `Reader::read_event`: the reader gives its next token and has one less
/// to give. When it has none left it gives `Eof` where the text was read to
/// its end, and an error where it was not.
#[verifier::external_body]
fn read_event<'a>(reader: &mut quick_xml::Reader<&'a [u8]>) -> (result: Result<
    quick_xml::events::Event<'a>,
    quick_xml::Error,
>)
    ensures
        match result {
            Ok(event) => if remaining(*old(reader)).tokens.len() > 0 {
                &&& token_of(event) == remaining(*old(reader)).tokens[0]
                &&& token_of(event).kind != TokenKind::Eof
                &&& remaining(*final(reader)).tokens == remaining(*old(reader)).tokens.drop_first()
                &&& remaining(*final(reader)).complete == remaining(*old(reader)).complete
            } else {
                &&& token_of(event).kind == TokenKind::Eof
                &&& remaining(*old(reader)).complete
            },
            Err(_) => remaining(*old(reader)).tokens.len() == 0 && !remaining(
                *old(reader),
            ).complete,
        },
{
    reader.read_event()
}

/// Tells the variants of `Event` apart.
#[verifier::external_body]
fn event_kind(event: &quick_xml::events::Event) -> (kind: TokenKind)
    ensures
        kind == token_of(*event).kind,
{
    match event {
        quick_xml::events::Event::Start(_) => TokenKind::Start,
        quick_xml::events::Event::Empty(_) => TokenKind::Empty,
        quick_xml::events::Event::End(_) => TokenKind::End,
        quick_xml::events::Event::Text(_) => TokenKind::Text,
        quick_xml::events::Event::Eof => TokenKind::Eof,
        _ => TokenKind::Other,
    }
}

/// `BytesStart::name` and `BytesEnd::name`: the name of the element of a
/// tag, as text.
#[verifier::external_body]
fn event_name(event: &quick_xml::events::Event) -> (name: String)
    ensures
        name@ == token_of(*event).name,
{
    match event {
        quick_xml::events::Event::Start(e) | quick_xml::events::Event::Empty(e) => {
            String::from_utf8_lossy(e.name().as_ref()).into_owned()
        },
        quick_xml::events::Event::End(e) => String::from_utf8_lossy(e.name().as_ref()).into_owned(),
        _ => String::new(),
    }
}

/// `BytesStart::attributes`: what the reader finds in the place of
/// attributes in a tag, in the order written: each attribute with its
/// value as written, and nothing for what the reader cannot read as one.
#[verifier::external_body]
fn event_attributes(event: &quick_xml::events::Event) -> (attributes: Vec<Option<Attribute>>)
    ensures
        attributes.deep_view() == token_of(*event).attributes,
{
    match event {
        quick_xml::events::Event::Start(e) | quick_xml::events::Event::Empty(e) => {
            e.attributes().map(|found| found.ok().map(|a| Attribute {
                key: String::from_utf8_lossy(a.key.as_ref()).into_owned(),
                value: String::from_utf8_lossy(&a.value).into_owned(),
            })).collect()
        },
        _ => Vec::new(),
    }
}

/// `BytesText::unescape`: the text of a text token with its character
/// references resolved, and no text where one of them cannot be.
#[verifier::external_body]
fn event_text(event: &quick_xml::events::Event) -> (text: String)
    ensures
        text@ == token_of(*event).text,
{
    match event {
        quick_xml::events::Event::Text(e) => e.unescape().unwrap_or_default().into_owned(),
        _ => String::new(),
    }
}

/// What the reader says of an error.
#[verifier::external_body]
fn xml_error_text(error: &quick_xml::Error) -> (text: String)
{
    error.to_string()
}

/// The attributes among what stands in the place of attributes: what
/// the reader could not read as one is passed over.
pub open spec fn readable(found: Seq<Option<AttributeModel>>) -> Seq<AttributeModel>
    decreases found.len(),
{
    if found.len() == 0 {
        Seq::empty()
    } else {
        match found.last() {
            Some(attribute) => readable(found.drop_last()).push(attribute),
            None => readable(found.drop_last()),
        }
    }
}

/// Keeps the attributes that the reader could read.
fn readable_attributes(found: Vec<Option<Attribute>>) -> (attributes: Vec<Attribute>)
    ensures
        attributes.deep_view() == readable(found.deep_view()),
{
    let mut found = found;
    let ghost all = found.deep_view();
    let mut attributes: Vec<Attribute> = Vec::new();
    let mut i: usize = 0;
    while i < found.len()
        invariant
            i <= found.len(),
            found.len() == all.len(),
            forall|k: int| i <= k < found.len() ==> (#[trigger] found@[k]).deep_view() == all[k],
            attributes.deep_view() == readable(all.take(i as int)),
        decreases found.len() - i,
    {
        let mut taken: Option<Attribute> = None;
        core::mem::swap(&mut taken, &mut found[i]);
        proof {
            assert(all.take(i + 1).drop_last() =~= all.take(i as int));
        }
        match taken {
            Some(attribute) => {
                let ghost before = attributes;
                attributes.push(attribute);
                proof {
                    lemma_deep_view_push(before, attributes, attribute);
                }
            },
            None => {},
        }
        i += 1;
    }
    assert(all.take(found@.len() as int) =~= all);
    attributes
}

/// The events that one token stands for: a start tag opens an element, an
/// end tag closes one, a tag of an element without content does both, text
/// is text, and any other token is passed over.
pub open spec fn token_events(token: Token) -> Seq<EventModel> {
    match token.kind {
        TokenKind::Start => seq![
            EventModel::Open { name: token.name, attributes: readable(token.attributes) },
        ],
        TokenKind::Empty => seq![
            EventModel::Open { name: token.name, attributes: readable(token.attributes) },
            EventModel::Close { name: token.name },
        ],
        TokenKind::End => seq![EventModel::Close { name: token.name }],
        TokenKind::Text => seq![EventModel::Text { text: token.text }],
        TokenKind::Eof => Seq::empty(),
        TokenKind::Other => Seq::empty(),
    }
}

/// The events that a list of tokens stands for.
pub open spec fn events_of(tokens: Seq<Token>) -> Seq<EventModel>
    decreases tokens.len(),
{
    if tokens.len() == 0 {
        Seq::empty()
    } else {
        events_of(tokens.drop_last()) + token_events(tokens.last())
    }
}

/// Decodes an XML text into its events.
///
/// The text is refused, with an `XmlParseError` whose message starts with
/// `label`, exactly when it is no XML up to its end.
pub fn read_events(content: &str, label: &str) -> (result: Result<Vec<StreamEvent>, HwpError>)
    ensures
        match result {
            Ok(events) => decoded(content@).complete && events.deep_view() == events_of(
                decoded(content@).tokens,
            ),
            Err(HwpError::XmlParseError(message)) => !decoded(content@).complete
                && crate::text::has_prefix(message@, label@),
            Err(_) => false,
        },
{
    let mut reader = open_reader(content);
    let mut events: Vec<StreamEvent> = Vec::new();
    let ghost all = decoded(content@).tokens;
    let ghost mut done: int = 0;
    loop
        invariant
            0 <= done <= all.len(),
            all == decoded(content@).tokens,
            remaining(reader).tokens == all.skip(done),
            remaining(reader).complete == decoded(content@).complete,
            events.deep_view() == events_of(all.take(done)),
        decreases all.len() - done,
    {
        match read_event(&mut reader) {
            Err(error) => {
                let mut message = label.to_owned();
                let detail = xml_error_text(&error);
                message.append(detail.as_str());
                assert(message@.take(label@.len() as int) =~= label@);
                return Err(HwpError::XmlParseError(message));
            },
            Ok(event) => {
                let kind = event_kind(&event);
                if kind == TokenKind::Eof {
                    assert(all.take(done) =~= all);
                    return Ok(events);
                }
                proof {
                    assert(all.take(done + 1).drop_last() =~= all.take(done));
                }
                let ghost before = events;
                match kind {
                    TokenKind::Start => {
                        let opening = StreamEvent::Open {
                            name: event_name(&event),
                            attributes: readable_attributes(event_attributes(&event)),
                        };
                        events.push(opening);
                        proof {
                            lemma_deep_view_push(before, events, opening);
                        }
                    },
                    TokenKind::Empty => {
                        let opening = StreamEvent::Open {
                            name: event_name(&event),
                            attributes: readable_attributes(event_attributes(&event)),
                        };
                        let closing = StreamEvent::Close { name: event_name(&event) };
                        events.push(opening);
                        let ghost between = events;
                        events.push(closing);
                        proof {
                            lemma_deep_view_push(before, between, opening);
                            lemma_deep_view_push(between, events, closing);
                        }
                    },
                    TokenKind::End => {
                        let closing = StreamEvent::Close { name: event_name(&event) };
                        events.push(closing);
                        proof {
                            lemma_deep_view_push(before, events, closing);
                        }
                    },
                    TokenKind::Text => {
                        let text = StreamEvent::Text { text: event_text(&event) };
                        events.push(text);
                        proof {
                            lemma_deep_view_push(before, events, text);
                        }
                    },
                    _ => {},
                }
                proof {
                    done = done + 1;
                }
            },
        }
    }
}

} // verus!
