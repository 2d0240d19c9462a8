use mcpox_jsonrpc::error::{panic_err_to_string, JsonRpcError, PanicPayload};
use mcpox_jsonrpc::json::{JsonNumber, JsonValue};
use mcpox_jsonrpc::mcp::{EventHandle, McpClientError};
use mcpox_jsonrpc::text::{i32_to_text, u64_to_text};
use mcpox_jsonrpc::types::{ErrorCode, ErrorDetails, ErrorResponse};

fn told(error: JsonRpcError) -> (ErrorCode, String, Option<JsonValue>) {
    let details = ErrorDetails::from(error);
    (details.code, details.message, details.data)
}

fn source() -> String {
    "secret".to_string()
}

#[test]
fn parse_errors() {
    let error = JsonRpcError::ParseJson { source: source(), json: "{".to_string() };
    assert_eq!(error.to_text(), "Error parsing JSON");
    assert_eq!(told(error), (ErrorCode::ParseError, "Invalid JSON".to_string(), None));
}

#[test]
fn serialization_errors() {
    let error = JsonRpcError::SerRequest { source: source(), type_label: "Foo" };
    assert_eq!(error.to_text(), "Error serializing request Foo to JSON");
    assert_eq!(
        told(error),
        (ErrorCode::InternalError, "Error serializing request Foo to JSON".to_string(), None)
    );

    let error = JsonRpcError::SerResponse { source: source(), type_label: "Bar" };
    assert_eq!(error.to_text(), "Error serializing response Bar to JSON");
    assert_eq!(
        told(error),
        (ErrorCode::InternalError, "Error serializing response".to_string(), None)
    );
}

#[test]
fn deserialization_errors() {
    let bad = JsonValue::Number(JsonNumber::PosInt(5));
    let error = JsonRpcError::DeserRequest {
        source: source(),
        type_label: "Foo",
        request: bad.clone(),
    };
    assert_eq!(error.to_text(), "Error deserializing request JSON into Foo");
    assert_eq!(
        told(error),
        (
            ErrorCode::InvalidRequest,
            "Invalid request".to_string(),
            Some(JsonValue::Object(vec![("bad_json".to_string(), bad.clone())]))
        )
    );

    let error = JsonRpcError::DeserResponse { source: source(), type_label: "Bar", response: bad };
    assert_eq!(error.to_text(), "Error deserializing response JSON into Bar");
    assert_eq!(
        told(error),
        (ErrorCode::InternalError, "Error deserializing response JSON into Bar".to_string(), None)
    );
}

#[test]
fn errors_of_a_connection() {
    let error = JsonRpcError::Transport { source: source() };
    assert_eq!(error.to_text(), "Transport error");
    assert_eq!(told(error), (ErrorCode::InternalError, "Transport error".to_string(), None));

    let closed = "Operation canceled because the connection closed before a response was received";
    assert_eq!(JsonRpcError::PendingRequestConnectionClosed.to_text(), closed);
    assert_eq!(
        told(JsonRpcError::PendingRequestConnectionClosed),
        (ErrorCode::InternalError, closed.to_string(), None)
    );

    let error = JsonRpcError::CustomEventLoopError { source: source() };
    assert_eq!(error.to_text(), "Custom event loop handler reported an error");
    assert_eq!(told(error).1, "Custom event loop handler reported an error");

    assert_eq!(JsonRpcError::Cancelled.to_text(), "Operation was cancelled by request");
    assert_eq!(told(JsonRpcError::Cancelled).1, "Operation was cancelled by request");

    let error = JsonRpcError::Bug { message: "oops".to_string() };
    assert_eq!(error.to_text(), "BUG: oops");
    assert_eq!(
        told(error),
        (ErrorCode::InternalError, "Unexpected internal error".to_string(), None)
    );

    assert_eq!(JsonRpcError::BatchNotSentYet.to_text(), "Batch has not been sent yet");
    assert_eq!(told(JsonRpcError::BatchNotSentYet).1, "Batch has not been sent yet");
    let failed = "Call failed because the batch request it was part of failed to send";
    assert_eq!(JsonRpcError::BatchSendFailed.to_text(), failed);
    assert_eq!(told(JsonRpcError::BatchSendFailed).1, failed);
}

#[test]
fn the_error_of_a_method_is_passed_on() {
    let error = JsonRpcError::MethodError {
        method: "add".to_string(),
        error: ErrorDetails::server_error(-7, "nope".to_string(), Some(JsonValue::Null)),
    };
    assert_eq!(
        error.to_text(),
        "The method 'add' failed with an error -7: Server error: nope"
    );
    assert_eq!(
        told(error),
        (ErrorCode::ServerError(-7), "nope".to_string(), Some(JsonValue::Null))
    );
}

#[test]
fn panics_are_made_readable() {
    assert_eq!(panic_err_to_string(PanicPayload::Literal("a")), "a");
    assert_eq!(panic_err_to_string(PanicPayload::Text("b".to_string())), "b");
    assert_eq!(
        panic_err_to_string(PanicPayload::Other {
            type_label: "u8".to_string(),
            type_id: "TypeId(0x1)".to_string()
        }),
        "Panic of type u8 (type ID TypeId(0x1))"
    );
}

#[test]
fn constructors_of_details() {
    let make = |f: fn(String, Option<JsonValue>) -> ErrorDetails| {
        let error = f("m".to_string(), None);
        assert_eq!(error.message, "m");
        error.code
    };
    assert_eq!(make(ErrorDetails::parse_error), ErrorCode::ParseError);
    assert_eq!(make(ErrorDetails::oversized_request), ErrorCode::OversizedRequest);
    assert_eq!(make(ErrorDetails::invalid_request), ErrorCode::InvalidRequest);
    assert_eq!(make(ErrorDetails::method_not_found), ErrorCode::MethodNotFound);
    assert_eq!(make(ErrorDetails::server_is_busy), ErrorCode::ServerIsBusy);
    assert_eq!(make(ErrorDetails::invalid_params), ErrorCode::InvalidParams);
    assert_eq!(make(ErrorDetails::internal_error), ErrorCode::InternalError);
    let response = ErrorResponse::from(ErrorDetails::server_error(4, "s".to_string(), None));
    assert_eq!(response.error.code, ErrorCode::ServerError(4));
}

#[test]
fn numbers_are_written_in_decimal() {
    assert_eq!(u64_to_text(0), "0");
    assert_eq!(u64_to_text(907), "907");
    assert_eq!(u64_to_text(u64::MAX), "18446744073709551615");
    assert_eq!(i32_to_text(i32::MIN), "-2147483648");
    assert_eq!(i32_to_text(-1), "-1");
    assert_eq!(i32_to_text(0), "0");
    assert_eq!(i32_to_text(i32::MAX), "2147483647");
}

#[test]
fn errors_of_the_protocol_client() {
    let versions = vec!["2024-11-05".to_string(), "2025-03-26".to_string()];
    let error = McpClientError::SpawnServer {
        source: source(),
        program: "srv".to_string(),
        args: vec!["-v".to_string(), "x".to_string()],
    };
    assert_eq!(
        error.to_text(&versions),
        "Error spawning MCP server 'srv' with args [-v x] as child process"
    );
    let error = McpClientError::SpawnServer {
        source: source(),
        program: "srv".to_string(),
        args: vec![],
    };
    assert_eq!(
        error.to_text(&versions),
        "Error spawning MCP server 'srv' with args [] as child process"
    );
    let error = McpClientError::JsonRpcBind { source: JsonRpcError::Cancelled };
    assert_eq!(error.to_text(&versions), "Operation was cancelled by request");
    let error = McpClientError::json_rpc_call_error("ping".to_string(), JsonRpcError::Cancelled);
    assert_eq!(error.to_text(&versions), "Error invoking 'ping' on MCP server");
    let error = McpClientError::UnsupportedProtoVersion { version: "1".to_string() };
    assert_eq!(
        error.to_text(&versions),
        "The MCP server speaks MCP protocol version '1' but this client only supports the following protocol versions: 2024-11-05, 2025-03-26"
    );
    let _handle: EventHandle<u8> = EventHandle::new();
}
