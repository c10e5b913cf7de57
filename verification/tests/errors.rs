use quick_socket::error::predeclared::{ErrorDetails, QuickSocketError};
use quick_socket::error::PortNotFoundError;
use quick_socket::socket_instance::{ChannelClient, PeerAddr, StreamId};

fn details_of(error: &QuickSocketError) -> (String, String) {
    let ErrorDetails { code, message } = error.details();
    (code, message)
}

fn pair(code: &str, message: &str) -> (String, String) {
    (code.to_string(), message.to_string())
}

fn some_client() -> ChannelClient {
    ChannelClient {
        uid: "u-1".to_string(),
        addr: PeerAddr::V4 { ip: 0x7f000001, port: 4000 },
        stream: Some(StreamId(7)),
    }
}

#[test]
fn details_of_the_errors_of_the_read_path() {
    assert_eq!(
        details_of(&QuickSocketError::SocketBufferReadFail),
        pair("SOCKET_BUFFER_READ_FAIL", "Failed to read buffer from socket")
    );
    assert_eq!(
        details_of(&QuickSocketError::JsonParseFail),
        pair("JSON_PARSE_FAIL", "Failed to parse json")
    );
    assert_eq!(
        details_of(&QuickSocketError::JsonFormatInvalid),
        pair("JSON_FORMAT_INVALID", "JSON format is invalid. Did you forgot to send event?")
    );
    assert_eq!(details_of(&QuickSocketError::EventNotFound), pair("EVENT_NOT_FOUND", "Event not found"));
    assert_eq!(
        details_of(&QuickSocketError::InternalServerError),
        pair("INTERNAL_SERVER_ERROR", "Internal server error")
    );
}

#[test]
fn details_of_the_errors_of_the_server() {
    assert_eq!(
        details_of(&QuickSocketError::VacantPortSearchFail),
        pair("VACANT_PORT_SEARCH_FAIL", "Failed to find vacant port")
    );
    assert_eq!(
        details_of(&QuickSocketError::ChannelInitializeFail),
        pair("CHANNEL_INITIALIZE_FAIL", "Failed to initialize channel")
    );
    assert_eq!(
        details_of(&QuickSocketError::InstanceInitializeInvalid),
        pair("INSTANCE_INITIALIZE_INVALID", "Instance initialize invalid.")
    );
}

#[test]
fn details_of_the_errors_of_a_channel() {
    assert_eq!(
        details_of(&QuickSocketError::EventAlreadyExists),
        pair("EVENT_ALREADY_EXISTS", "Event already exists")
    );
    assert_eq!(
        details_of(&QuickSocketError::ClientAlreadyExists),
        pair("CLIENT_ALREADY_EXISTS", "Client already exists")
    );
    assert_eq!(
        details_of(&QuickSocketError::ClientNotRegistered),
        pair("CLIENT_NOT_REGISTERED", "Client not registered")
    );
    assert_eq!(
        details_of(&QuickSocketError::ClientDataInvalid),
        pair("CLIENT_DATA_INVALID", "Client data is invalid")
    );
    assert_eq!(
        details_of(&QuickSocketError::DataResponseFail),
        pair("DATA_RESPONSE_FAIL", "Failed to send response data")
    );
    assert_eq!(
        details_of(&QuickSocketError::ConnectionClosed(some_client())),
        pair("CONNECTION_CLOSED", "Connection closed")
    );
}

#[test]
fn details_of_the_open_ended_errors() {
    assert_eq!(
        details_of(&QuickSocketError::Undefined("something odd".to_string())),
        pair("UNDEFINED", "something odd")
    );
    assert_eq!(
        details_of(&QuickSocketError::Custom("TEAPOT".to_string(), "short and stout".to_string())),
        pair("TEAPOT", "short and stout")
    );
}

#[test]
fn jsonify_writes_code_then_message() {
    let value = QuickSocketError::JsonParseFail.jsonify();
    assert_eq!(value.dump(), r#"{"code":"JSON_PARSE_FAIL","message":"Failed to parse json"}"#);
    assert!(value.is_object());
    assert_eq!(value["code"].as_str(), Some("JSON_PARSE_FAIL"));
    assert_eq!(value["message"].as_str(), Some("Failed to parse json"));
    assert_eq!(value.len(), 2);
}

#[test]
fn jsonify_of_a_custom_error_escapes_its_text() {
    let value = QuickSocketError::Custom("A\"B".to_string(), "line\nbreak".to_string()).jsonify();
    assert_eq!(value.dump(), r#"{"code":"A\"B","message":"line\nbreak"}"#);
    assert_eq!(value["code"].as_str(), Some("A\"B"));
}

#[test]
fn jsonify_of_a_custom_error_with_blank_fields() {
    let value = QuickSocketError::Custom(String::new(), String::new()).jsonify();
    assert_eq!(value.dump(), r#"{"code":"","message":""}"#);
}

#[test]
fn to_string_joins_code_and_message() {
    assert_eq!(
        QuickSocketError::EventNotFound.to_string(),
        "EVENT_NOT_FOUND : Event not found"
    );
    assert_eq!(
        QuickSocketError::Custom("X".to_string(), "y".to_string()).to_string(),
        "X : y"
    );
    assert_eq!(QuickSocketError::Undefined(String::new()).to_string(), "UNDEFINED : ");
}

#[test]
fn to_box_copies_the_error() {
    let error = QuickSocketError::ConnectionClosed(some_client());
    let boxed = error.to_box();
    assert_eq!(*boxed, error);
    let custom = QuickSocketError::Custom("A".to_string(), "b".to_string());
    assert_eq!(*custom.to_box(), custom);
    assert_eq!(*QuickSocketError::DataResponseFail.to_box(), QuickSocketError::DataResponseFail);
}

#[test]
fn clone_copies_every_field() {
    let error = QuickSocketError::ConnectionClosed(some_client());
    assert_eq!(error.clone(), error);
    let details = QuickSocketError::Undefined("m".to_string()).details();
    assert_eq!(details.clone(), details);
    assert_ne!(
        QuickSocketError::Undefined("m".to_string()).clone(),
        QuickSocketError::Undefined("n".to_string())
    );
}

#[test]
fn port_not_found_has_its_text() {
    assert_eq!(PortNotFoundError.to_string(), "cannot find vacant port");
}
