//! The error taxonomy: every error has a stable code and a message, and goes
//! over the wire as the object `{"code": .., "message": ..}`.

use crate::socket_instance::client::ChannelClient;
use crate::wire::{json_model, pair_model, pair_object, JsonModel};
use vstd::prelude::*;

verus! {

/// The code and the message of an error, as they are sent to a peer.
#[derive(Debug, PartialEq, Eq)]
pub struct ErrorDetails {
    pub code: String,
    pub message: String,
}

impl Clone for ErrorDetails {
    fn clone(&self) -> (copy: Self)
        ensures
            copy == *self,
    {
        ErrorDetails { code: self.code.clone(), message: self.message.clone() }
    }
}

/// Everything that can go wrong in the engine.
#[derive(Debug, PartialEq, Eq)]
pub enum QuickSocketError {
    /// A fatal error while reading from an accepted stream.
    SocketBufferReadFail,
    /// The exhaustive port scan found no vacant port.
    VacantPortSearchFail,
    /// A channel could not be set up.
    ChannelInitializeFail,
    /// The payload was not valid JSON.
    JsonParseFail,
    /// The payload was JSON without a string under `event`.
    JsonFormatInvalid,
    /// No handler is registered under the event's name.
    EventNotFound,
    /// An unexpected condition, such as a datagram that is not UTF-8.
    InternalServerError,
    /// The server has no handle to itself.
    InstanceInitializeInvalid,
    /// A handler is already registered under the event's name.
    EventAlreadyExists,
    /// A registered client already has the uid or the address.
    ClientAlreadyExists,
    /// No registered client has the uid.
    ClientNotRegistered,
    /// The registry could not be read, or a client of a stream channel has no
    /// stream.
    ClientDataInvalid,
    /// A write to a peer failed, and not because the connection was closed.
    DataResponseFail,
    /// The framed connection to this client was already closed at write time.
    ConnectionClosed(ChannelClient),
    /// An error without a code of its own, with its message.
    Undefined(String),
    /// An error defined by the embedding program: its code and its message.
    Custom(String, String),
}

impl Clone for QuickSocketError {
    fn clone(&self) -> (copy: Self)
        ensures
            copy == *self,
    {
        match self {
            QuickSocketError::SocketBufferReadFail => QuickSocketError::SocketBufferReadFail,
            QuickSocketError::VacantPortSearchFail => QuickSocketError::VacantPortSearchFail,
            QuickSocketError::ChannelInitializeFail => QuickSocketError::ChannelInitializeFail,
            QuickSocketError::JsonParseFail => QuickSocketError::JsonParseFail,
            QuickSocketError::JsonFormatInvalid => QuickSocketError::JsonFormatInvalid,
            QuickSocketError::EventNotFound => QuickSocketError::EventNotFound,
            QuickSocketError::InternalServerError => QuickSocketError::InternalServerError,
            QuickSocketError::InstanceInitializeInvalid => {
                QuickSocketError::InstanceInitializeInvalid
            },
            QuickSocketError::EventAlreadyExists => QuickSocketError::EventAlreadyExists,
            QuickSocketError::ClientAlreadyExists => QuickSocketError::ClientAlreadyExists,
            QuickSocketError::ClientNotRegistered => QuickSocketError::ClientNotRegistered,
            QuickSocketError::ClientDataInvalid => QuickSocketError::ClientDataInvalid,
            QuickSocketError::DataResponseFail => QuickSocketError::DataResponseFail,
            QuickSocketError::ConnectionClosed(client) => QuickSocketError::ConnectionClosed(
                client.clone(),
            ),
            QuickSocketError::Undefined(message) => QuickSocketError::Undefined(message.clone()),
            QuickSocketError::Custom(code, message) => QuickSocketError::Custom(
                code.clone(),
                message.clone(),
            ),
        }
    }
}

/// The wire form of an error: the object `{"code": code, "message": message}`.
pub open spec fn error_model(code: Seq<char>, message: Seq<char>) -> JsonModel {
    pair_model("code"@, JsonModel::Text(code), "message"@, JsonModel::Text(message))
}

impl QuickSocketError {
    /// The stable code of the error.
    pub open spec fn code(&self) -> Seq<char> {
        match self {
            QuickSocketError::SocketBufferReadFail => "SOCKET_BUFFER_READ_FAIL"@,
            QuickSocketError::VacantPortSearchFail => "VACANT_PORT_SEARCH_FAIL"@,
            QuickSocketError::ChannelInitializeFail => "CHANNEL_INITIALIZE_FAIL"@,
            QuickSocketError::JsonParseFail => "JSON_PARSE_FAIL"@,
            QuickSocketError::JsonFormatInvalid => "JSON_FORMAT_INVALID"@,
            QuickSocketError::EventNotFound => "EVENT_NOT_FOUND"@,
            QuickSocketError::InternalServerError => "INTERNAL_SERVER_ERROR"@,
            QuickSocketError::InstanceInitializeInvalid => "INSTANCE_INITIALIZE_INVALID"@,
            QuickSocketError::EventAlreadyExists => "EVENT_ALREADY_EXISTS"@,
            QuickSocketError::ClientAlreadyExists => "CLIENT_ALREADY_EXISTS"@,
            QuickSocketError::ClientNotRegistered => "CLIENT_NOT_REGISTERED"@,
            QuickSocketError::ClientDataInvalid => "CLIENT_DATA_INVALID"@,
            QuickSocketError::DataResponseFail => "DATA_RESPONSE_FAIL"@,
            QuickSocketError::ConnectionClosed(_) => "CONNECTION_CLOSED"@,
            QuickSocketError::Undefined(_) => "UNDEFINED"@,
            QuickSocketError::Custom(code, _) => code@,
        }
    }

    /// The message that explains the error to a reader.
    pub open spec fn message(&self) -> Seq<char> {
        match self {
            QuickSocketError::SocketBufferReadFail => "Failed to read buffer from socket"@,
            QuickSocketError::VacantPortSearchFail => "Failed to find vacant port"@,
            QuickSocketError::ChannelInitializeFail => "Failed to initialize channel"@,
            QuickSocketError::JsonParseFail => "Failed to parse json"@,
            QuickSocketError::JsonFormatInvalid => {
                "JSON format is invalid. Did you forgot to send event?"@
            },
            QuickSocketError::EventNotFound => "Event not found"@,
            QuickSocketError::InternalServerError => "Internal server error"@,
            QuickSocketError::InstanceInitializeInvalid => "Instance initialize invalid."@,
            QuickSocketError::EventAlreadyExists => "Event already exists"@,
            QuickSocketError::ClientAlreadyExists => "Client already exists"@,
            QuickSocketError::ClientNotRegistered => "Client not registered"@,
            QuickSocketError::ClientDataInvalid => "Client data is invalid"@,
            QuickSocketError::DataResponseFail => "Failed to send response data"@,
            QuickSocketError::ConnectionClosed(_) => "Connection closed"@,
            QuickSocketError::Undefined(message) => message@,
            QuickSocketError::Custom(_, message) => message@,
        }
    }

    /// How the error reads in a log line: the code, ` : `, the message.
    pub open spec fn display(&self) -> Seq<char> {
        self.code() + " : "@ + self.message()
    }

    pub fn details(&self) -> (details: ErrorDetails)
        ensures
            details.code@ == self.code(),
            details.message@ == self.message(),
    {
        match self {
            QuickSocketError::SocketBufferReadFail => ErrorDetails {
                code: String::from_str("SOCKET_BUFFER_READ_FAIL"),
                message: String::from_str("Failed to read buffer from socket"),
            },
            QuickSocketError::VacantPortSearchFail => ErrorDetails {
                code: String::from_str("VACANT_PORT_SEARCH_FAIL"),
                message: String::from_str("Failed to find vacant port"),
            },
            QuickSocketError::ChannelInitializeFail => ErrorDetails {
                code: String::from_str("CHANNEL_INITIALIZE_FAIL"),
                message: String::from_str("Failed to initialize channel"),
            },
            QuickSocketError::JsonParseFail => ErrorDetails {
                code: String::from_str("JSON_PARSE_FAIL"),
                message: String::from_str("Failed to parse json"),
            },
            QuickSocketError::JsonFormatInvalid => ErrorDetails {
                code: String::from_str("JSON_FORMAT_INVALID"),
                message: String::from_str("JSON format is invalid. Did you forgot to send event?"),
            },
            QuickSocketError::EventNotFound => ErrorDetails {
                code: String::from_str("EVENT_NOT_FOUND"),
                message: String::from_str("Event not found"),
            },
            QuickSocketError::InternalServerError => ErrorDetails {
                code: String::from_str("INTERNAL_SERVER_ERROR"),
                message: String::from_str("Internal server error"),
            },
            QuickSocketError::InstanceInitializeInvalid => ErrorDetails {
                code: String::from_str("INSTANCE_INITIALIZE_INVALID"),
                message: String::from_str("Instance initialize invalid."),
            },
            QuickSocketError::EventAlreadyExists => ErrorDetails {
                code: String::from_str("EVENT_ALREADY_EXISTS"),
                message: String::from_str("Event already exists"),
            },
            QuickSocketError::ClientAlreadyExists => ErrorDetails {
                code: String::from_str("CLIENT_ALREADY_EXISTS"),
                message: String::from_str("Client already exists"),
            },
            QuickSocketError::ClientNotRegistered => ErrorDetails {
                code: String::from_str("CLIENT_NOT_REGISTERED"),
                message: String::from_str("Client not registered"),
            },
            QuickSocketError::ClientDataInvalid => ErrorDetails {
                code: String::from_str("CLIENT_DATA_INVALID"),
                message: String::from_str("Client data is invalid"),
            },
            QuickSocketError::DataResponseFail => ErrorDetails {
                code: String::from_str("DATA_RESPONSE_FAIL"),
                message: String::from_str("Failed to send response data"),
            },
            QuickSocketError::ConnectionClosed(_) => ErrorDetails {
                code: String::from_str("CONNECTION_CLOSED"),
                message: String::from_str("Connection closed"),
            },
            QuickSocketError::Undefined(message) => ErrorDetails {
                code: String::from_str("UNDEFINED"),
                message: message.clone(),
            },
            QuickSocketError::Custom(code, message) => ErrorDetails {
                code: code.clone(),
                message: message.clone(),
            },
        }
    }

    /// The error as it is sent to a peer.
    pub fn jsonify(&self) -> (value: json::JsonValue)
        ensures
            json_model(value) == error_model(self.code(), self.message()),
    {
        let details = self.details();
        pair_object(
            "code",
            json::JsonValue::from(details.code),
            "message",
            json::JsonValue::from(details.message),
        )
    }

    /// A copy of the error on the heap.
    pub fn to_box(&self) -> (boxed: Box<QuickSocketError>)
        ensures
            *boxed == *self,
    {
        Box::new(self.clone())
    }

    /// The error as a log line.
    pub fn to_string(&self) -> (text: String)
        ensures
            text@ == self.display(),
    {
        let details = self.details();
        let mut text = details.code;
        text.append(" : ");
        text.append(details.message.as_str());
        text
    }
}

} // verus!
