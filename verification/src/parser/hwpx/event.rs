//! The events that a section is read from: elements that open and close,
//! and text between them.

use vstd::prelude::*;

verus! {

/// One attribute of an element: its name and its value as written.
#[derive(Debug, Clone, PartialEq, Eq)]
pub struct Attribute {
    pub key: String,
    pub value: String,
}

/// What an `Attribute` holds, as contracts see it.
pub struct AttributeModel {
    pub key: Seq<char>,
    pub value: Seq<char>,
}

impl View for Attribute {
    type V = AttributeModel;

    open spec fn view(&self) -> AttributeModel {
        AttributeModel { key: self.key@, value: self.value@ }
    }
}

impl DeepView for Attribute {
    type V = AttributeModel;

    open spec fn deep_view(&self) -> AttributeModel {
        self@
    }
}

/// One event of the stream. An element without content is an `Open` and
/// then a `Close` of the same name.
#[derive(Debug, Clone, PartialEq, Eq)]
pub enum StreamEvent {
    /// An element opens. The attributes stand in the order written; where
    /// a name is written twice the later value counts.
    Open { name: String, attributes: Vec<Attribute> },
    /// An element closes.
    Close { name: String },
    /// Text between elements.
    Text { text: String },
}

/// What a `StreamEvent` holds, as contracts see it.
pub enum EventModel {
    Open { name: Seq<char>, attributes: Seq<AttributeModel> },
    Close { name: Seq<char> },
    Text { text: Seq<char> },
}

impl View for StreamEvent {
    type V = EventModel;

    open spec fn view(&self) -> EventModel {
        match self {
            StreamEvent::Open { name, attributes } => EventModel::Open {
                name: name@,
                attributes: attributes.deep_view(),
            },
            StreamEvent::Close { name } => EventModel::Close { name: name@ },
            StreamEvent::Text { text } => EventModel::Text { text: text@ },
        }
    }
}

impl DeepView for StreamEvent {
    type V = EventModel;

    open spec fn deep_view(&self) -> EventModel {
        self@
    }
}

} // verus!
