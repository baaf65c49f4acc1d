//! Inbound frames: what a frame is, read off the two members that tell.

use crate::json::{json_document, json_member, json_text, member, parse_document, text_of};
use crate::requests::message_id_key;
use serde_json::Value;
use vstd::prelude::*;

verus! {

/// The key of the member that names the kind of an event.
pub open spec fn update_type_key() -> Seq<char> {
    "update-type"@
}

/// A member of a JSON value, as far as the session layer reads it.
#[derive(Debug)]
pub enum Field {
    /// The value is no object, or has no such member.
    Absent,
    /// The member is a string with this text.
    Text(String),
    /// The member is there and is no string.
    Other,
}

/// What a `Field` stands for.
pub enum FieldView {
    Absent,
    Text(Seq<char>),
    Other,
}

impl View for Field {
    type V = FieldView;

    open spec fn view(&self) -> FieldView {
        match self {
            Field::Absent => FieldView::Absent,
            Field::Text(text) => FieldView::Text(text@),
            Field::Other => FieldView::Other,
        }
    }
}

/// The member `key` of `document`, as far as the session layer reads it.
pub open spec fn field_of(document: Value, key: Seq<char>) -> FieldView {
    match json_member(document, key) {
        None => FieldView::Absent,
        Some(inner) => match json_text(inner) {
            Some(text) => FieldView::Text(text),
            None => FieldView::Other,
        },
    }
}

/// Reads the member `key` of `document`.
pub fn read_field(document: &Value, key: &str) -> (field: Field)
    ensures
        field@ == field_of(*document, key@),
{
    match member(document, key) {
        None => Field::Absent,
        Some(inner) => match text_of(inner) {
            Some(text) => Field::Text(text.to_owned()),
            None => Field::Other,
        },
    }
}

/// The envelope of a response. Only its correlation id is read here: the rest of the
/// frame is for the caller that waits for it.
#[derive(Debug)]
pub struct ObsResponse {
    message_id: String,
}

impl View for ObsResponse {
    type V = Seq<char>;

    closed spec fn view(&self) -> Seq<char> {
        self.message_id@
    }
}

impl ObsResponse {
    /// The envelope of the response to the request `message_id`.
    pub fn new(message_id: String) -> (response: Self)
        ensures
            response@ == message_id@,
    {
        ObsResponse { message_id }
    }

    /// The correlation id of the response.
    pub fn message_id(&self) -> (message_id: &str)
        ensures
            message_id@ == self@,
    {
        self.message_id.as_str()
    }

    /// Reads `frame` as the envelope of a response.
    pub fn read(frame: &str) -> (response: Option<Self>)
        ensures
            match response {
                Some(envelope) => envelope_of(frame@) == (EnvelopeView::Response {
                    message_id: envelope@,
                }),
                None => !(envelope_of(frame@) is Response),
            },
    {
        match read_envelope(frame) {
            Envelope::Response(envelope) => Some(envelope),
            _ => None,
        }
    }
}

/// What an inbound frame is.
#[derive(Debug)]
pub enum Envelope {
    /// The response to the request with this correlation id.
    Response(ObsResponse),
    /// An event of this kind.
    Event { update_type: String },
    /// Neither: no JSON, a correlation id that is no string, or no correlation id and no
    /// kind of event.
    Malformed,
}

/// What an `Envelope` stands for.
pub enum EnvelopeView {
    Response { message_id: Seq<char> },
    Event { update_type: Seq<char> },
    Malformed,
}

impl View for Envelope {
    type V = EnvelopeView;

    open spec fn view(&self) -> EnvelopeView {
        match self {
            Envelope::Response(response) => EnvelopeView::Response { message_id: response@ },
            Envelope::Event { update_type } => EnvelopeView::Event { update_type: update_type@ },
            Envelope::Malformed => EnvelopeView::Malformed,
        }
    }
}

/// What a frame is whose two telling members are `message_id` and `update_type`. A
/// correlation id makes it a response, whatever else it holds; without one, the kind of
/// an event makes it an event.
pub open spec fn envelope_of_fields(message_id: FieldView, update_type: FieldView) -> EnvelopeView {
    match message_id {
        FieldView::Text(id) => EnvelopeView::Response { message_id: id },
        FieldView::Other => EnvelopeView::Malformed,
        FieldView::Absent => match update_type {
            FieldView::Text(kind) => EnvelopeView::Event { update_type: kind },
            _ => EnvelopeView::Malformed,
        },
    }
}

/// What the frame `frame` is.
pub open spec fn envelope_of(frame: Seq<char>) -> EnvelopeView {
    match json_document(frame) {
        None => EnvelopeView::Malformed,
        Some(document) => envelope_of_fields(
            field_of(document, message_id_key()),
            field_of(document, update_type_key()),
        ),
    }
}

/// Whether `frame` holds a correlation id: whether it is a JSON object with a member
/// under the key of the correlation id.
pub open spec fn has_message_id(frame: Seq<char>) -> bool {
    match json_document(frame) {
        None => false,
        Some(document) => json_member(document, message_id_key()) is Some,
    }
}

/// Tells what a frame is from its two telling members.
pub fn envelope_from_fields(message_id: Field, update_type: Field) -> (envelope: Envelope)
    ensures
        envelope@ == envelope_of_fields(message_id@, update_type@),
{
    match message_id {
        Field::Text(id) => Envelope::Response(ObsResponse::new(id)),
        Field::Other => Envelope::Malformed,
        Field::Absent => match update_type {
            Field::Text(kind) => Envelope::Event { update_type: kind },
            _ => Envelope::Malformed,
        },
    }
}

/// Tells what the frame `frame` is.
pub fn read_envelope(frame: &str) -> (envelope: Envelope)
    ensures
        envelope@ == envelope_of(frame@),
{
    match parse_document(frame) {
        Err(_) => Envelope::Malformed,
        Ok(document) => {
            let message_id = read_field(&document, "message-id");
            let update_type = read_field(&document, "update-type");
            envelope_from_fields(message_id, update_type)
        },
    }
}

} // verus!
