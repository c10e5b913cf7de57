//! Outbound envelopes: every message to a peer is the object
//! `{"event": <tag>, "data": <value>}`.

use crate::wire::{json_dump_text, json_model, pair_model, pair_object, JsonModel};
use vstd::prelude::*;

verus! {

/// The tag that classifies an outbound envelope.
#[derive(Clone, Copy, Debug, PartialEq, Eq, Structural)]
pub enum ResponseEvent {
    Error,
    Redirect,
    Execute,
    Terminate,
    /// The handler answered; written `ok` on the wire.
    Okay,
    Data,
}

impl ResponseEvent {
    /// The tag as it is written on the wire: the variant's name in lower case.
    pub open spec fn tag(self) -> Seq<char> {
        match self {
            ResponseEvent::Error => "error"@,
            ResponseEvent::Redirect => "redirect"@,
            ResponseEvent::Execute => "execute"@,
            ResponseEvent::Terminate => "terminate"@,
            ResponseEvent::Okay => "ok"@,
            ResponseEvent::Data => "data"@,
        }
    }

    pub fn to_string(&self) -> (text: String)
        ensures
            text@ == self.tag(),
    {
        match *self {
            ResponseEvent::Error => String::from_str("error"),
            ResponseEvent::Redirect => String::from_str("redirect"),
            ResponseEvent::Execute => String::from_str("execute"),
            ResponseEvent::Terminate => String::from_str("terminate"),
            ResponseEvent::Okay => String::from_str("ok"),
            ResponseEvent::Data => String::from_str("data"),
        }
    }
}

/// The envelope that carries `data` under the tag of `event`.
pub open spec fn envelope_model(event: ResponseEvent, data: JsonModel) -> JsonModel {
    pair_model("event"@, JsonModel::Text(event.tag()), "data"@, data)
}

/// The text that goes over the wire for `data` under the tag of `event`.
pub open spec fn frame_text(event: ResponseEvent, data: JsonModel) -> Seq<char> {
    json_dump_text(envelope_model(event, data))
}

/// Wraps `value` in its envelope.
pub fn envelope(event: ResponseEvent, value: json::JsonValue) -> (wrapped: json::JsonValue)
    ensures
        json_model(wrapped) == envelope_model(event, json_model(value)),
{
    pair_object("event", json::JsonValue::from(event.to_string()), "data", value)
}

/// Wraps `value` in its envelope and writes the envelope out as text.
pub fn frame(event: ResponseEvent, value: json::JsonValue) -> (text: String)
    ensures
        text@ == frame_text(event, json_model(value)),
{
    envelope(event, value).dump()
}

/// An envelope is an object of two entries, `event` first: its tag can be
/// read back under `event` and its payload under `data`.
pub proof fn lemma_envelope_members(event: ResponseEvent, data: JsonModel)
    ensures
        envelope_model(event, data) == JsonModel::Object(
            seq![("event"@, JsonModel::Text(event.tag())), ("data"@, data)],
        ),
        envelope_model(event, data).member("event"@) == JsonModel::Text(event.tag()),
        envelope_model(event, data).member("data"@) == data,
{
    reveal_strlit("event");
    reveal_strlit("data");
    assert("event"@.len() != "data"@.len());
    crate::wire::lemma_pair_model("event"@, JsonModel::Text(event.tag()), "data"@, data);
}

} // verus!
