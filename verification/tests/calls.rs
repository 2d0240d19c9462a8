use mcpox_jsonrpc::connection::{Command, OutboundMessage, Reply};
use mcpox_jsonrpc::connection_handle::{
    cancel_server_request, confirmation, queued, raise_raw, serialized_params, start_call_raw,
    BatchBuilder, BatchCall, BatchMethodFuture, BatchSend, BatchStatus, RawRequestHandle,
    RequestHandle,
};
use mcpox_jsonrpc::error::JsonRpcError;
use mcpox_jsonrpc::json::{JsonNumber, JsonValue};
use mcpox_jsonrpc::shutdown::refuse_outbound_message;
use mcpox_jsonrpc::types::{ErrorCode, Id, Response};

fn text(s: &str) -> JsonValue {
    JsonValue::String(s.to_string())
}

fn number(n: u64) -> JsonValue {
    JsonValue::Number(JsonNumber::PosInt(n))
}

fn uuid_text(id: &Id) -> String {
    match id {
        Id::Str(text) => text.clone(),
        _ => panic!("not a string"),
    }
}

fn is_uuid_v7(id: &Id) -> bool {
    let text = uuid_text(id);
    let parsed = uuid::Uuid::parse_str(&text).unwrap();
    parsed.get_version_num() == 7 && parsed.hyphenated().to_string() == text
}

fn closed<V>(result: &Result<V, JsonRpcError>) -> bool {
    matches!(result, Err(JsonRpcError::PendingRequestConnectionClosed))
}

#[test]
fn a_call_gets_an_id_of_its_own() {
    let (first, handle): (OutboundMessage<u8, ()>, RawRequestHandle) =
        start_call_raw("echo".to_string(), Some(number(1)), 5);
    let (_, other): (OutboundMessage<u8, ()>, RawRequestHandle) =
        start_call_raw("echo".to_string(), None, 6);
    assert!(is_uuid_v7(&handle.request_id()));
    assert!(is_uuid_v7(&other.request_id()));
    assert_ne!(handle.request_id(), other.request_id());
    match first {
        OutboundMessage::Method { request, response_tx } => {
            assert_eq!(request.id, handle.request_id());
            assert_eq!(request.method, "echo");
            assert_eq!(request.params, Some(number(1)));
            assert_eq!(response_tx, 5);
        }
        _ => panic!("not a call"),
    }
    assert!(matches!(
        handle.cancel(),
        Command::CancelPendingOutboundRequest { request_id } if request_id == handle.request_id()
    ));
    assert!(matches!(
        cancel_server_request(Id::Number(1)),
        Command::CancelPendingInboundRequest { request_id: Id::Number(1) }
    ));
}

#[test]
fn the_result_of_a_call_is_what_was_delivered() {
    let (_, handle) = RawRequestHandle::start(Id::Number(1), "m".to_string(), None);
    let delivered = Response::success(Id::Number(1), text("r"));
    assert!(matches!(handle.result(Some(Ok(delivered))), Ok(json) if json == text("r")));
    let delivered = Response::error(Id::Number(1), ErrorCode::ServerError(2), "e".to_string(), None);
    match handle.result(Some(Ok(delivered))) {
        Err(JsonRpcError::MethodError { method, error }) => {
            assert_eq!(method, "m");
            assert_eq!(error.code, ErrorCode::ServerError(2));
            assert_eq!(error.message, "e");
        }
        _ => panic!("not an error"),
    }
    assert!(matches!(
        handle.result(Some(Err(JsonRpcError::Cancelled))),
        Err(JsonRpcError::Cancelled)
    ));
    assert!(closed(&handle.result(None)));
}

#[test]
fn the_result_of_a_call_is_read_as_a_type() {
    let (request, raw) = RawRequestHandle::start(Id::Number(1), "m".to_string(), Some(text("p")));
    assert_eq!(request.params, Some(text("p")));
    let handle: RequestHandle<u8> = RequestHandle::new(raw);
    assert_eq!(handle.request_id(), Id::Number(1));
    assert!(matches!(
        handle.cancel(),
        Command::CancelPendingOutboundRequest { request_id: Id::Number(1) }
    ));
    assert!(closed(&handle.raw_result(None)));
    assert!(matches!(handle.result(number(3), Ok(3), "u8"), Ok(3)));
    match handle.result(text("x"), Err("bad".to_string()), "u8") {
        Err(JsonRpcError::DeserResponse { source, type_label, response }) => {
            assert_eq!(source, "bad");
            assert_eq!(type_label, "u8");
            assert_eq!(response, text("x"));
        }
        _ => panic!("not refused"),
    }
}

#[test]
fn what_cannot_be_queued_fails() {
    assert!(queued(true).is_ok());
    assert!(closed(&queued(false)));
    assert!(confirmation(Some(Ok(()))).is_ok());
    assert!(matches!(
        confirmation(Some(Err(JsonRpcError::Cancelled))),
        Err(JsonRpcError::Cancelled)
    ));
    assert!(closed(&confirmation(None)));
}

#[test]
fn a_notification_is_made() {
    let outbound: OutboundMessage<(), u8> = raise_raw("hi".to_string(), Some(number(1)), 3);
    match outbound {
        OutboundMessage::Notification { notification, send_confirmation_tx } => {
            assert_eq!(notification.method, "hi");
            assert_eq!(notification.params, Some(number(1)));
            assert_eq!(send_confirmation_tx, 3);
        }
        _ => panic!("not a notification"),
    }
}

#[test]
fn parameters_that_are_not_json_fail() {
    assert!(matches!(serialized_params(Ok(number(1)), "T"), Ok(json) if json == number(1)));
    assert!(matches!(
        serialized_params(Err("bad".to_string()), "T"),
        Err(JsonRpcError::SerRequest { source, type_label: "T" }) if source == "bad"
    ));
}

#[test]
fn a_batch_keeps_what_was_added_in_order() {
    let mut batch: BatchBuilder<u8> = BatchBuilder::new();
    let first: BatchMethodFuture<()> = batch.call("a".to_string(), 1);
    batch.raise("n".to_string());
    let second: BatchMethodFuture<()> =
        match batch.call_with_params("b".to_string(), Ok(number(2)), "T", 2) {
            BatchCall::Added(future) => future,
            BatchCall::Failed { .. } => panic!("not added"),
        };
    batch.raise_with_params("o".to_string(), Ok(text("p")));
    batch.raise_with_params("p".to_string(), Err("bad".to_string()));
    assert!(is_uuid_v7(&first.request_id()));
    assert_ne!(first.request_id(), second.request_id());
    assert_eq!(batch.status(), BatchStatus::NotSent);
    let (send, status) = batch.send("C");
    assert_eq!(status, BatchStatus::Sent);
    match send {
        BatchSend::Send(OutboundMessage::Batch { requests, notifications, send_confirmation_tx }) => {
            assert_eq!(requests.len(), 2);
            assert_eq!(requests[0].0.id, first.request_id());
            assert_eq!(requests[0].0.method, "a");
            assert_eq!(requests[0].0.params, None);
            assert_eq!(requests[0].1, 1);
            assert_eq!(requests[1].0.id, second.request_id());
            assert_eq!(requests[1].0.params, Some(number(2)));
            assert_eq!(requests[1].1, 2);
            let raised: Vec<(String, Option<JsonValue>)> =
                notifications.into_iter().map(|n| (n.method, n.params)).collect();
            assert_eq!(
                raised,
                vec![
                    ("n".to_string(), None),
                    ("o".to_string(), Some(text("p"))),
                    ("p".to_string(), None)
                ]
            );
            assert_eq!(send_confirmation_tx, "C");
        }
        _ => panic!("nothing is sent"),
    }
}

#[test]
fn a_call_with_bad_parameters_is_not_added() {
    let mut batch: BatchBuilder<u8> = BatchBuilder::new();
    match batch.call_with_params::<()>("b".to_string(), Err("bad".to_string()), "T", 9) {
        BatchCall::Failed { tx, error, future, status } => {
            assert_eq!(status, BatchStatus::Sent);
            assert_eq!(tx, 9);
            assert!(matches!(error, JsonRpcError::SerRequest { type_label: "T", .. }));
            assert_eq!(future.request_id(), Id::Null);
        }
        BatchCall::Added(_) => panic!("it was added"),
    }
    assert!(matches!(batch.send(()), (BatchSend::Nothing, BatchStatus::Sent)));
}

#[test]
fn connection_handle_test_batch_method_future_not_sent_error() {
    let mut batch: BatchBuilder<u8> = BatchBuilder::new();
    let future: BatchMethodFuture<JsonValue> = batch.call("echo".to_string(), 1);
    let error = match future.raw_result(batch.status(), None) {
        Ok(_) => panic!("Future should not complete successfully"),
        Err(e) => e,
    };
    assert!(matches!(error, JsonRpcError::BatchNotSentYet));
    assert!(matches!(
        future.not_sent(BatchStatus::NotSent),
        Some(JsonRpcError::BatchNotSentYet)
    ));
    assert!(future.not_sent(BatchStatus::Sent).is_none());

    let delivered = Response::success(future.request_id(), text("r"));
    assert!(matches!(future.raw_result(BatchStatus::Sent, Some(Ok(delivered))), Ok(json) if json == text("r")));
    assert!(closed(&future.raw_result(BatchStatus::Sent, None)));
    assert!(matches!(
        future.result(number(1), Err("bad".to_string()), "T"),
        Err(JsonRpcError::DeserResponse { type_label: "T", .. })
    ));
}

#[test]
fn connection_handle_test_empty_batch() {
    let batch: BatchBuilder<u8> = BatchBuilder::new();
    assert!(matches!(batch.send(()), (BatchSend::Nothing, BatchStatus::Sent)));
}

#[test]
fn connection_handle_test_batch_with_connection_shutdown() {
    let mut batch: BatchBuilder<&'static str> = BatchBuilder::new();
    let future: BatchMethodFuture<JsonValue> =
        match batch.call_with_params("echo".to_string(), Ok(text("test")), "&str", "T") {
            BatchCall::Added(future) => future,
            BatchCall::Failed { .. } => panic!("not added"),
        };

    let (send, status) = batch.send("C");
    let outbound = match send {
        BatchSend::Send(outbound) => outbound,
        BatchSend::Nothing => panic!("nothing is sent"),
    };
    // The connection is closed, so that the batch cannot be queued.
    assert!(closed(&queued(false)));
    let mut replies = refuse_outbound_message(outbound).into_iter();
    let delivered = match replies.next() {
        Some(Reply::Response { tx: "T", result }) => result,
        _ => panic!("the call is told nothing"),
    };
    assert!(matches!(
        replies.next(),
        Some(Reply::Confirmation { tx: "C", result: Err(JsonRpcError::PendingRequestConnectionClosed) })
    ));
    assert!(closed(&future.raw_result(status, Some(delivered))));
}
