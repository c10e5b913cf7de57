//! What the workers of a channel decide.
//!
//! A worker reads from a socket, asks the channel what to do with what it
//! read, and does it. The reading, the sleeping and the calling of handlers
//! are the worker's; every choice between them is made here.

use crate::error::predeclared::{error_model, QuickSocketError};
use crate::socket_instance::channel::{Channel, ChannelView};
use crate::socket_instance::client::ChannelClient;
use crate::socket_instance::emit::{Emission, EmissionView};
use crate::socket_instance::event::{frame_text, ResponseEvent};
use crate::wire::{json_model, member_of, parse_text, parsed, text_of_bytes, JsonModel};
use vstd::prelude::*;
use vstd::utf8::{decode_utf8, valid_utf8};

verus! {

/// The read timeout, in milliseconds, of an accepted stream socket on a
/// channel that is `concurrent`.
pub const READ_TIMEOUT_MS: u64 = 50;

/// How long, in milliseconds, a reader waits before it reads again after a
/// read that would have blocked.
pub const RETRY_PAUSE_MS: u64 = 10;

/// The size, in bytes, of the buffer that a datagram is received into.
pub const DATAGRAM_BUFFER_SIZE: usize = 65535;

/// What one read from a framed stream produced.
#[derive(Debug, PartialEq, Eq)]
pub enum ReadEvent {
    /// A text message.
    Text(String),
    /// A binary or control frame.
    NonText,
    /// Nothing yet: the read would have blocked.
    WouldBlock,
    /// Any other error.
    Failed,
}

/// What a worker does next. `F` is how the handler is held and `D` how the
/// data is: a borrowed handler and a `JsonValue` when the program runs, the
/// handler itself and a [`JsonModel`] in contracts.
#[derive(Debug)]
pub enum WorkerStep<F, D> {
    /// Leave: the channel is destroyed.
    Stop,
    /// Wait this long, then read again.
    Retry { pause_ms: u64 },
    /// Read again; there is nothing to answer.
    Skip,
    /// Send this error to the peer, then leave.
    Abort(QuickSocketError),
    /// Send this error to the peer, then read again.
    Answer(QuickSocketError),
    /// Call the handler with the data, then send what `reply_for` makes of
    /// its result.
    Invoke { handler: F, data: D },
}

/// What the accept loop of a stream channel does before it serves the next
/// connection.
#[derive(Clone, Copy, Debug, PartialEq, Eq, Structural)]
pub enum AcceptStep {
    /// Leave: the channel is destroyed.
    Stop,
    /// Serve the connection, with this read timeout on its socket if any.
    Serve { read_timeout_ms: Option<u64> },
}

/// An envelope on its way out: the tag and the payload.
#[derive(Debug)]
pub struct Reply {
    pub event: ResponseEvent,
    pub data: json::JsonValue,
}

impl<'a, H> WorkerStep<&'a H, json::JsonValue> {
    /// The step as contracts see it.
    pub open spec fn model(self) -> WorkerStep<H, JsonModel> {
        match self {
            WorkerStep::Stop => WorkerStep::Stop,
            WorkerStep::Retry { pause_ms } => WorkerStep::Retry { pause_ms },
            WorkerStep::Skip => WorkerStep::Skip,
            WorkerStep::Abort(error) => WorkerStep::Abort(error),
            WorkerStep::Answer(error) => WorkerStep::Answer(error),
            WorkerStep::Invoke { handler, data } => WorkerStep::Invoke {
                handler: *handler,
                data: json_model(data),
            },
        }
    }
}

/// Where a message goes, given what parsing made of its text: to the handler
/// named by its `event`, with what it holds under `data`. A text that did not
/// parse, a message without a string under `event` and an event without a
/// handler are each answered with an error of their own.
pub open spec fn route<H>(handlers: Map<Seq<char>, H>, parsed: Option<JsonModel>) -> WorkerStep<
    H,
    JsonModel,
> {
    match parsed {
        None => WorkerStep::Answer(QuickSocketError::JsonParseFail),
        Some(message) => match message.member("event"@) {
            JsonModel::Text(name) => if handlers.contains_key(name) {
                WorkerStep::Invoke { handler: handlers[name], data: message.member("data"@) }
            } else {
                WorkerStep::Answer(QuickSocketError::EventNotFound)
            },
            _ => WorkerStep::Answer(QuickSocketError::JsonFormatInvalid),
        },
    }
}

/// What the reader of a stream connection does with what it read.
pub open spec fn reader_route<H>(channel: ChannelView<H>, read: ReadEvent) -> WorkerStep<
    H,
    JsonModel,
> {
    if channel.destroyed {
        WorkerStep::Stop
    } else {
        match read {
            ReadEvent::Text(text) => route(channel.handlers, parsed(text@)),
            ReadEvent::NonText => WorkerStep::Skip,
            ReadEvent::WouldBlock => if channel.pref.concurrent {
                WorkerStep::Retry { pause_ms: RETRY_PAUSE_MS }
            } else {
                WorkerStep::Abort(QuickSocketError::SocketBufferReadFail)
            },
            ReadEvent::Failed => WorkerStep::Abort(QuickSocketError::SocketBufferReadFail),
        }
    }
}

/// What the handler of one datagram does with its bytes.
pub open spec fn datagram_route<H>(channel: ChannelView<H>, bytes: Seq<u8>) -> WorkerStep<
    H,
    JsonModel,
> {
    if channel.destroyed {
        WorkerStep::Stop
    } else if valid_utf8(bytes) {
        route(channel.handlers, parsed(decode_utf8(bytes)))
    } else {
        WorkerStep::Answer(QuickSocketError::InternalServerError)
    }
}

/// What the accept loop does next.
pub open spec fn accept_route<H>(channel: ChannelView<H>) -> AcceptStep {
    if channel.destroyed {
        AcceptStep::Stop
    } else {
        AcceptStep::Serve {
            read_timeout_ms: if channel.pref.concurrent {
                Some(READ_TIMEOUT_MS)
            } else {
                None
            },
        }
    }
}

/// The envelope, if any, that answers the result of a handler: its value
/// under `ok`, nothing for no value, its error under `error`.
pub open spec fn reply_model(outcome: Result<Option<json::JsonValue>, QuickSocketError>) -> Option<
    (ResponseEvent, JsonModel),
> {
    match outcome {
        Ok(Some(value)) => Some((ResponseEvent::Okay, json_model(value))),
        Ok(None) => None,
        Err(error) => Some((ResponseEvent::Error, error_model(error.code(), error.message()))),
    }
}

impl Reply {
    /// The reply as contracts see it.
    pub open spec fn model(self) -> (ResponseEvent, JsonModel) {
        (self.event, json_model(self.data))
    }
}

/// The envelope that tells a peer of `error`.
pub fn error_reply(error: &QuickSocketError) -> (reply: Reply)
    ensures
        reply.model() == (ResponseEvent::Error, error_model(error.code(), error.message())),
{
    Reply { event: ResponseEvent::Error, data: error.jsonify() }
}

/// The envelope, if any, that answers the result of a handler.
pub fn reply_for(outcome: Result<Option<json::JsonValue>, QuickSocketError>) -> (reply: Option<
    Reply,
>)
    ensures
        match reply {
            Some(reply) => reply_model(outcome) == Some(reply.model()),
            None => reply_model(outcome) is None,
        },
{
    match outcome {
        Ok(Some(value)) => Some(Reply { event: ResponseEvent::Okay, data: value }),
        Ok(None) => None,
        Err(error) => Some(error_reply(&error)),
    }
}

impl<H> Channel<H> {
    /// Routes one inbound text to its handler. A text that the parser
    /// refuses, or that may not be handed to it, is answered with
    /// `JsonParseFail`.
    pub fn dispatch(&self, text: &str) -> (step: WorkerStep<&H, json::JsonValue>)
        ensures
            step.model() == route(self@.handlers, parsed(text@)),
    {
        match parse_text(text) {
            Some(message) => self.dispatch_message(&message),
            None => WorkerStep::Answer(QuickSocketError::JsonParseFail),
        }
    }

    /// Routes one parsed message to its handler.
    pub fn dispatch_message(&self, message: &json::JsonValue) -> (step: WorkerStep<
        &H,
        json::JsonValue,
    >)
        ensures
            step.model() == route(self@.handlers, Some(json_model(*message))),
    {
        let name = match member_of(message, "event").as_str() {
            Some(name) => name,
            None => {
                return WorkerStep::Answer(QuickSocketError::JsonFormatInvalid);
            },
        };
        match self.handler(name) {
            Some(handler) => WorkerStep::Invoke {
                handler,
                data: member_of(message, "data").clone(),
            },
            None => WorkerStep::Answer(QuickSocketError::EventNotFound),
        }
    }

    /// What the reader of a stream connection does with what it read. On a
    /// destroyed channel it leaves, whatever it read.
    pub fn reader_step(&self, read: &ReadEvent) -> (step: WorkerStep<&H, json::JsonValue>)
        ensures
            step.model() == reader_route(self@, *read),
    {
        if self.is_destroyed() {
            return WorkerStep::Stop;
        }
        match read {
            ReadEvent::Text(text) => self.dispatch(text.as_str()),
            ReadEvent::NonText => WorkerStep::Skip,
            ReadEvent::WouldBlock => {
                if self.pref().concurrent {
                    WorkerStep::Retry { pause_ms: RETRY_PAUSE_MS }
                } else {
                    WorkerStep::Abort(QuickSocketError::SocketBufferReadFail)
                }
            },
            ReadEvent::Failed => WorkerStep::Abort(QuickSocketError::SocketBufferReadFail),
        }
    }

    /// What the handler of one datagram does with its bytes. On a destroyed
    /// channel it leaves, whatever they are.
    pub fn datagram_step(&self, bytes: &[u8]) -> (step: WorkerStep<&H, json::JsonValue>)
        ensures
            step.model() == datagram_route(self@, bytes@),
    {
        if self.is_destroyed() {
            return WorkerStep::Stop;
        }
        match text_of_bytes(bytes) {
            Some(text) => self.dispatch(text),
            None => WorkerStep::Answer(QuickSocketError::InternalServerError),
        }
    }

    /// Starts sending `reply` to `client` alone.
    pub fn answer(&self, client: ChannelClient, reply: Reply) -> (emission: Emission)
        ensures
            emission@ == EmissionView::start(
                self@.transport,
                frame_text(reply.event, json_model(reply.data)),
                seq![client],
            ),
    {
        let mut clients: Vec<ChannelClient> = Vec::new();
        clients.push(client);
        self.emit_to(clients, reply.event, reply.data)
    }

    /// What the accept loop does before it serves the next connection.
    pub fn accept_step(&self) -> (step: AcceptStep)
        ensures
            step == accept_route(self@),
    {
        if self.is_destroyed() {
            AcceptStep::Stop
        } else if self.pref().concurrent {
            AcceptStep::Serve { read_timeout_ms: Some(READ_TIMEOUT_MS) }
        } else {
            AcceptStep::Serve { read_timeout_ms: None }
        }
    }
}

} // verus!
