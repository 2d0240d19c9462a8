use mcpox_jsonrpc::error::JsonRpcError;
use mcpox_jsonrpc::json::{JsonNumber, JsonValue};
use mcpox_jsonrpc::types::{
    ErrorCode, ErrorDetails, Id, InvalidRequest, Message, Notification, Request, Response,
    ResponsePayload,
};

fn text(s: &str) -> JsonValue {
    JsonValue::String(s.to_string())
}

fn number(n: u64) -> JsonValue {
    JsonValue::Number(JsonNumber::PosInt(n))
}

fn negative(i: i64) -> JsonValue {
    JsonValue::Number(JsonNumber::NegInt(i))
}

fn object(members: Vec<(&str, JsonValue)>) -> JsonValue {
    JsonValue::Object(
        members
            .into_iter()
            .map(|(name, value)| (name.to_string(), value))
            .collect(),
    )
}

fn array(items: Vec<JsonValue>) -> JsonValue {
    JsonValue::Array(items)
}

fn call(id: JsonValue, method: &str) -> JsonValue {
    object(vec![("jsonrpc", text("2.0")), ("id", id), ("method", text(method))])
}

fn is_invalid(json: &JsonValue, id: Id) -> bool {
    matches!(Message::from_json(json), Some(Message::InvalidRequest(invalid)) if invalid.id == id)
}

#[test]
fn a_request_needs_version_id_and_method() {
    assert!(Request::from_json(&call(number(1), "m")).is_some());
    assert!(Request::from_json(&object(vec![("id", number(1)), ("method", text("m"))])).is_none());
    assert!(Request::from_json(&object(vec![
        ("jsonrpc", text("1.0")),
        ("id", number(1)),
        ("method", text("m"))
    ]))
    .is_none());
    assert!(Request::from_json(&object(vec![("jsonrpc", text("2.0")), ("id", number(1))])).is_none());
    assert!(Request::from_json(&call(JsonValue::Bool(true), "m")).is_none());
    assert!(Request::from_json(&text("m")).is_none());
    assert!(Request::from_json(&JsonValue::Null).is_none());
}

#[test]
fn a_request_holds_nothing_else() {
    let json = object(vec![
        ("jsonrpc", text("2.0")),
        ("id", number(7)),
        ("method", text("m")),
        ("extra", JsonValue::Null),
    ]);
    assert!(Request::from_json(&json).is_none());
    assert!(is_invalid(&json, Id::Number(7)));
}

#[test]
fn repeated_names_are_refused() {
    let json = object(vec![
        ("jsonrpc", text("2.0")),
        ("id", number(7)),
        ("method", text("a")),
        ("method", text("b")),
    ]);
    assert!(Request::from_json(&json).is_none());
    assert!(is_invalid(&json, Id::Number(7)));

    let json = object(vec![("id", number(1)), ("id", number(2))]);
    assert!(InvalidRequest::from_json(&json).is_none());
    assert!(Message::from_json(&json).is_none());

    let json = object(vec![
        ("jsonrpc", text("2.0")),
        ("method", text("m")),
        ("params", number(1)),
        ("params", number(1)),
    ]);
    assert!(Notification::from_json(&json).is_none());
    assert!(Message::from_json(&json).is_none());
}

#[test]
fn names_that_nobody_looks_at_may_be_repeated() {
    let json = object(vec![
        ("jsonrpc", text("2.0")),
        ("id", number(3)),
        ("result", number(5)),
        ("x", number(1)),
        ("x", number(2)),
    ]);
    let response = Response::from_json(&json).unwrap();
    assert_eq!(response.id, Id::Number(3));
    assert!(matches!(response.payload, ResponsePayload::Success(s) if s.result == number(5)));
}

#[test]
fn a_request_can_be_an_array_of_its_parts() {
    let json = array(vec![text("2.0"), number(4), text("m"), array(vec![number(1)])]);
    let request = Request::from_json(&json).unwrap();
    assert_eq!(request.id, Id::Number(4));
    assert_eq!(request.method, "m");
    assert_eq!(request.params, Some(array(vec![number(1)])));
    assert!(matches!(Message::from_json(&json), Some(Message::Request(_))));

    let json = array(vec![text("2.0"), number(4), text("m"), JsonValue::Null]);
    assert_eq!(Request::from_json(&json).unwrap().params, None);
    assert!(Request::from_json(&array(vec![text("2.0"), number(4), text("m")])).is_none());

    let json = array(vec![text("2.0"), text("m"), number(1)]);
    let notification = Notification::from_json(&json).unwrap();
    assert_eq!(notification.method, "m");
    assert_eq!(notification.params, Some(number(1)));
    assert!(matches!(Message::from_json(&json), Some(Message::Notification(_))));

    assert!(is_invalid(&array(vec![text("x")]), Id::Str("x".to_string())));
}

#[test]
fn an_array_of_messages_is_a_batch() {
    assert!(matches!(
        Message::from_json(&array(vec![])),
        Some(Message::Batch(messages)) if messages.is_empty()
    ));
    let json = array(vec![
        call(number(1), "a"),
        array(vec![object(vec![("id", number(2))])]),
    ]);
    match Message::from_json(&json) {
        Some(Message::Batch(messages)) => {
            assert_eq!(messages.len(), 2);
            assert!(matches!(&messages[0], Message::Request(_)));
            assert!(matches!(&messages[1], Message::Batch(inner) if inner.len() == 1));
        }
        _ => panic!("not a batch"),
    }
    assert!(Message::from_json(&array(vec![call(number(1), "a"), number(1)])).is_none());
}

#[test]
fn explicit_null_parameters_read_as_left_out() {
    let json = object(vec![
        ("jsonrpc", text("2.0")),
        ("method", text("m")),
        ("params", JsonValue::Null),
    ]);
    assert_eq!(Notification::from_json(&json).unwrap().params, None);
}

#[test]
fn ids_are_null_or_small_integers_or_strings() {
    let id_of = |id: JsonValue| InvalidRequest::from_json(&object(vec![("id", id)])).map(|i| i.id);
    assert_eq!(id_of(JsonValue::Null), Some(Id::Null));
    assert_eq!(id_of(number(u64::MAX)), Some(Id::Number(u64::MAX)));
    assert_eq!(id_of(text("a")), Some(Id::Str("a".to_string())));
    assert_eq!(id_of(negative(-1)), None);
    assert_eq!(
        id_of(JsonValue::Number(JsonNumber::Float(1.0f64.to_bits()))),
        None
    );
    assert_eq!(id_of(array(vec![])), None);
}

#[test]
fn an_error_goes_before_a_result() {
    let json = object(vec![
        ("jsonrpc", text("2.0")),
        ("id", number(1)),
        ("result", number(9)),
        ("error", object(vec![("code", negative(-32601)), ("message", text("no"))])),
    ]);
    match Response::from_json(&json).unwrap().payload {
        ResponsePayload::Error(failure) => {
            assert_eq!(failure.error.code, ErrorCode::MethodNotFound);
            assert_eq!(failure.error.message, "no");
            assert_eq!(failure.error.data, None);
        }
        ResponsePayload::Success(_) => panic!("not an error"),
    }

    let json = object(vec![
        ("jsonrpc", text("2.0")),
        ("id", number(1)),
        ("error", text("not details")),
        ("result", JsonValue::Null),
    ]);
    assert!(matches!(
        Response::from_json(&json).unwrap().payload,
        ResponsePayload::Success(s) if s.result == JsonValue::Null
    ));

    let json = object(vec![("jsonrpc", text("2.0")), ("id", number(1)), ("error", text("x"))]);
    assert!(Response::from_json(&json).is_none());
    assert!(is_invalid(&json, Id::Number(1)));
}

#[test]
fn error_codes_fit_thirty_two_bits() {
    let code_of = |code: JsonValue| {
        ErrorDetails::from_json(&object(vec![("code", code), ("message", text(""))])).map(|e| e.code)
    };
    assert_eq!(code_of(negative(-32700)), Some(ErrorCode::ParseError));
    assert_eq!(code_of(number(2147483647)), Some(ErrorCode::ServerError(i32::MAX)));
    assert_eq!(code_of(negative(-2147483648)), Some(ErrorCode::ServerError(i32::MIN)));
    assert_eq!(code_of(number(2147483648)), None);
    assert_eq!(code_of(negative(-2147483649)), None);
    assert_eq!(code_of(text("1")), None);

    let json = array(vec![number(5), text("m"), text("d")]);
    let error = ErrorDetails::from_json(&json).unwrap();
    assert_eq!(error.code, ErrorCode::ServerError(5));
    assert_eq!(error.data, Some(text("d")));
}

#[test]
fn messages_are_written_in_a_fixed_order() {
    let request = Request::new(Id::Number(1), "m".to_string(), Some(number(2)));
    assert_eq!(
        request.to_json(),
        object(vec![
            ("jsonrpc", text("2.0")),
            ("id", number(1)),
            ("method", text("m")),
            ("params", number(2))
        ])
    );
    let response = Response::error(
        Id::Null,
        ErrorCode::ServerError(3),
        "e".to_string(),
        Some(JsonValue::Bool(false)),
    );
    assert_eq!(
        response.to_json(),
        object(vec![
            ("jsonrpc", text("2.0")),
            (
                "error",
                object(vec![
                    ("code", number(3)),
                    ("message", text("e")),
                    ("data", JsonValue::Bool(false))
                ])
            ),
            ("id", JsonValue::Null)
        ])
    );
    let batch = Message::Batch(vec![
        Message::Notification(Notification::new("n".to_string(), None)),
        Message::InvalidRequest(InvalidRequest { id: Id::Number(8) }),
    ]);
    assert_eq!(
        batch.to_json(),
        array(vec![
            object(vec![("jsonrpc", text("2.0")), ("method", text("n"))]),
            object(vec![("id", number(8))])
        ])
    );
}

#[test]
fn what_was_written_reads_as_itself() {
    let message = Message::Batch(vec![
        Message::Request(Request::new(Id::Str("a".to_string()), "m".to_string(), None)),
        Message::Notification(Notification::new("n".to_string(), Some(array(vec![])))),
        Message::Response(Response::success(Id::Number(1), JsonValue::Null)),
        Message::Response(Response::error(
            Id::Number(2),
            ErrorCode::InvalidParams,
            "e".to_string(),
            Some(number(1)),
        )),
        Message::InvalidRequest(InvalidRequest { id: Id::Null }),
        Message::Batch(vec![]),
    ]);
    let json = message.to_json();
    let again = Message::from_json(&json).unwrap();
    assert_eq!(again.to_json(), json);
    match again {
        Message::Batch(messages) => {
            assert!(matches!(&messages[0], Message::Request(r) if r.params.is_none()));
            assert!(matches!(&messages[1], Message::Notification(_)));
            assert!(matches!(&messages[2], Message::Response(r) if r.id == Id::Number(1)));
            assert!(matches!(&messages[3], Message::Response(r) if r.id == Id::Number(2)));
            assert!(matches!(&messages[4], Message::InvalidRequest(_)));
            assert!(matches!(&messages[5], Message::Batch(_)));
            assert_eq!(messages.len(), 6);
        }
        _ => panic!("not a batch"),
    }
}

#[test]
fn some_parts_do_not_survive() {
    let request = Request::new(Id::Null, "m".to_string(), Some(JsonValue::Null));
    assert_eq!(Request::from_json(&request.to_json()).unwrap().params, None);

    let busy = ErrorDetails::server_is_busy("b".to_string(), Some(JsonValue::Null));
    let again = ErrorDetails::from_json(&busy.to_json()).unwrap();
    assert_eq!(again.code, ErrorCode::ServerError(-32009));
    assert_eq!(again.data, None);

    let disguised = ErrorDetails::server_error(-32601, "d".to_string(), None);
    let again = ErrorDetails::from_json(&disguised.to_json()).unwrap();
    assert_eq!(again.code, ErrorCode::MethodNotFound);
}

#[test]
fn error_codes_are_those_of_the_protocol() {
    let pairs = vec![
        (ErrorCode::ParseError, jsonrpsee_types::ErrorCode::ParseError),
        (ErrorCode::OversizedRequest, jsonrpsee_types::ErrorCode::OversizedRequest),
        (ErrorCode::InvalidRequest, jsonrpsee_types::ErrorCode::InvalidRequest),
        (ErrorCode::MethodNotFound, jsonrpsee_types::ErrorCode::MethodNotFound),
        (ErrorCode::ServerIsBusy, jsonrpsee_types::ErrorCode::ServerIsBusy),
        (ErrorCode::InvalidParams, jsonrpsee_types::ErrorCode::InvalidParams),
        (ErrorCode::InternalError, jsonrpsee_types::ErrorCode::InternalError),
        (ErrorCode::ServerError(-5), jsonrpsee_types::ErrorCode::ServerError(-5)),
        (ErrorCode::ServerError(0), jsonrpsee_types::ErrorCode::ServerError(0)),
    ];
    for (ours, theirs) in pairs {
        assert_eq!(ours.code(), theirs.code());
        assert_eq!(ours.message(), theirs.message());
        assert_eq!(ours.to_text(), theirs.to_string());
    }
    for number in -32800..-31900 {
        let ours = ErrorCode::from(number);
        let theirs = jsonrpsee_types::ErrorCode::from(number);
        assert_eq!(ours.code(), theirs.code());
        assert_eq!(ours.message(), theirs.message());
    }
}

#[test]
fn a_text_that_is_no_message_is_reported_with_the_text() {
    match Message::from_str("17", Ok(number(17))) {
        Err(JsonRpcError::ParseJson { source, json }) => {
            assert_eq!(source, "data did not match any variant of untagged enum Message");
            assert_eq!(json, "17");
        }
        _ => panic!("not refused"),
    }
    match Message::from_str("{", Err("EOF".to_string())) {
        Err(JsonRpcError::ParseJson { source, json }) => {
            assert_eq!(source, "EOF");
            assert_eq!(json, "{");
        }
        _ => panic!("not refused"),
    }
}

#[test]
fn ids_are_shown_to_people() {
    assert_eq!(Id::Null.to_text(), "null");
    assert_eq!(Id::Number(0).to_text(), "0");
    assert_eq!(Id::Number(u64::MAX).to_text(), "18446744073709551615");
    assert_eq!(Id::Str("x y".to_string()).to_text(), "x y");
    assert_eq!(Id::Number(40).to_json(), number(40));
}

#[test]
fn a_message_that_cannot_be_printed_is_reported() {
    let message = Message::InvalidRequest(InvalidRequest { id: Id::Number(1) });
    let printed = message.into_string(|json| Ok(format!("{:?}", json))).unwrap();
    assert_eq!(printed, format!("{:?}", object(vec![("id", number(1))])));

    let message = Message::Batch(vec![]);
    match message.into_string(|_| Err("full".to_string())) {
        Err(JsonRpcError::SerResponse { source, type_label }) => {
            assert_eq!(source, "full");
            assert_eq!(type_label, "mcpox_jsonrpc::types::Message");
        }
        _ => panic!("not refused"),
    }
}

#[test]
fn of_a_repeated_name_inside_a_value_the_last_counts() {
    let repeated = || {
        object(vec![
            ("a", number(1)),
            ("b", array(vec![object(vec![("c", number(2)), ("c", number(3))])])),
            ("a", object(vec![("d", number(4)), ("d", number(5))])),
        ])
    };
    let kept = object(vec![
        ("b", array(vec![object(vec![("c", number(3))])])),
        ("a", object(vec![("d", number(5))])),
    ]);
    assert_eq!(repeated().with_last_values(), kept);
    assert_eq!(kept.with_last_values(), kept);

    let json = object(vec![
        ("jsonrpc", text("2.0")),
        ("method", text("m")),
        ("params", repeated()),
    ]);
    assert_eq!(Notification::from_json(&json).unwrap().params, Some(kept.clone()));

    let json = array(vec![text("2.0"), number(1), text("m"), repeated()]);
    assert_eq!(Request::from_json(&json).unwrap().params, Some(kept.clone()));

    let json = object(vec![("jsonrpc", text("2.0")), ("id", number(1)), ("result", repeated())]);
    assert!(matches!(
        Response::from_json(&json).unwrap().payload,
        ResponsePayload::Success(s) if s.result == kept
    ));

    let json = object(vec![("code", number(1)), ("message", text("e")), ("data", repeated())]);
    assert_eq!(ErrorDetails::from_json(&json).unwrap().data, Some(kept));
}

#[test]
fn values_of_any_shape_read_as_serde_reads_them() {
    let text = r#"{"x":1,"y":{"z":[1,{"k":1,"k":2}],"z":[{"k":3,"k":4}]},"x":-2}"#;
    let theirs: serde_json::Value = serde_json::from_str(text).unwrap();
    let ours = object(vec![
        ("x", number(1)),
        (
            "y",
            object(vec![
                ("z", array(vec![number(1), object(vec![("k", number(1)), ("k", number(2))])])),
                ("z", array(vec![object(vec![("k", number(3)), ("k", number(4))])])),
            ]),
        ),
        ("x", negative(-2)),
    ])
    .with_last_values();
    assert_eq!(
        ours,
        object(vec![
            ("y", object(vec![("z", array(vec![object(vec![("k", number(4))])]))])),
            ("x", negative(-2)),
        ])
    );
    assert_eq!(theirs["x"], serde_json::Value::from(-2));
    assert_eq!(theirs["y"]["z"][0]["k"], serde_json::Value::from(4));
    assert_eq!(theirs["y"]["z"][1], serde_json::Value::Null);
}
