use mcpox_jsonrpc::error::JsonRpcError;
use mcpox_jsonrpc::handler::Serialized;
use mcpox_jsonrpc::json::{JsonNumber, JsonValue};
use mcpox_jsonrpc::types::{
    ErrorCode, ErrorDetails, ErrorResponse, Id, InvalidRequest, Message, Notification, Request,
    Response, ResponsePayload, SuccessResponse, TwoPointZero,
};
use serde_json::Value;

fn from_value(value: Value) -> JsonValue {
    match value {
        Value::Null => JsonValue::Null,
        Value::Bool(b) => JsonValue::Bool(b),
        Value::Number(n) => JsonValue::Number(match (n.as_u64(), n.as_i64()) {
            (Some(u), _) => JsonNumber::PosInt(u),
            (None, Some(i)) => JsonNumber::NegInt(i),
            (None, None) => JsonNumber::Float(n.as_f64().unwrap().to_bits()),
        }),
        Value::String(s) => JsonValue::String(s),
        Value::Array(items) => JsonValue::Array(items.into_iter().map(from_value).collect()),
        Value::Object(members) => JsonValue::Object(
            members
                .into_iter()
                .map(|(name, value)| (name, from_value(value)))
                .collect(),
        ),
    }
}

fn to_value(json: &JsonValue) -> Value {
    match json {
        JsonValue::Null => Value::Null,
        JsonValue::Bool(b) => Value::from(*b),
        JsonValue::Number(JsonNumber::PosInt(n)) => Value::from(*n),
        JsonValue::Number(JsonNumber::NegInt(i)) => Value::from(*i),
        JsonValue::Number(JsonNumber::Float(bits)) => Value::from(f64::from_bits(*bits)),
        JsonValue::String(s) => Value::from(s.clone()),
        JsonValue::Array(items) => Value::Array(items.iter().map(to_value).collect()),
        JsonValue::Object(members) => Value::Object(
            members
                .iter()
                .map(|(name, value)| (name.clone(), to_value(value)))
                .collect(),
        ),
    }
}

fn parse(text: &str) -> Result<JsonValue, String> {
    serde_json::from_str(text)
        .map(from_value)
        .map_err(|e| e.to_string())
}

fn json(text: &str) -> JsonValue {
    parse(text).unwrap()
}

fn print(json: &JsonValue) -> String {
    to_value(json).to_string()
}

fn member<'a>(json: &'a JsonValue, name: &str) -> &'a JsonValue {
    match json {
        JsonValue::Object(members) => &members.iter().find(|(n, _)| n == name).unwrap().1,
        _ => panic!("not an object"),
    }
}

fn text(s: &str) -> JsonValue {
    JsonValue::String(s.to_string())
}

#[test]
fn test_request_serialization() {
    let known_good_json = r#"{"jsonrpc":"2.0","method":"test_method","params":[1,"test",true],"id":1}"#;
    let known_good_value: Value = serde_json::from_str(known_good_json).unwrap();

    let params = json(r#"[1, "test", true]"#);
    let id = Id::Number(1);
    let our_request = Request::new(id.clone(), "test_method".to_string(), Some(params));

    let our_json = print(&our_request.to_json());
    let our_value: Value = serde_json::from_str(&our_json).unwrap();

    assert_eq!(known_good_value, our_value);

    let deserialized = Request::from_json(&json(&our_json)).unwrap();
    assert_eq!(deserialized.id, our_request.id);
    assert_eq!(deserialized.method, our_request.method);
    assert_eq!(deserialized.jsonrpc, TwoPointZero);

    let known_good_request = Request::from_json(&json(known_good_json)).unwrap();
    assert_eq!(known_good_request.id, Id::Number(1));
    assert_eq!(known_good_request.method, "test_method");

    let message = Message::from_json(&json(known_good_json)).unwrap();
    assert!(matches!(message, Message::Request(_)));
}

#[test]
fn test_batch_request_serialization() {
    let known_good_json = format!(
        "{}{}",
        r#"[ {"jsonrpc":"2.0","method":"test_method","params":[1,"test",true],"id":1}, "#,
        r#"{"jsonrpc":"2.0","method":"test_method2","params":[1,"test",true],"id":2} ]"#
    );
    let params = json(r#"[1, "test", true]"#);

    let items = match json(&known_good_json) {
        JsonValue::Array(items) => items,
        _ => panic!("not an array"),
    };
    let deserialized: Vec<Request> = items.iter().map(|item| Request::from_json(item).unwrap()).collect();
    assert_eq!(deserialized[0].id, Id::Number(1));
    assert_eq!(deserialized[0].method, "test_method");
    assert_eq!(deserialized[0].params.as_ref(), Some(&params));
    assert_eq!(deserialized[1].id, Id::Number(2));
    assert_eq!(deserialized[1].method, "test_method2");
    assert_eq!(deserialized[1].params.as_ref(), Some(&params));

    let our_json: Vec<Value> = deserialized.iter().map(|request| to_value(&request.to_json())).collect();
    let known_good_value: Value = serde_json::from_str(&known_good_json).unwrap();
    assert_eq!(Value::Array(our_json), known_good_value);

    println!("{}", known_good_json);
    let message = Message::from_json(&json(&known_good_json)).unwrap();
    assert!(matches!(message, Message::Batch(_)));
}

#[test]
fn test_invalid_request_serialization() {
    let known_good_json = r#"{"jsonrpc":"2.0","methood":"test_method","id":1}"#;

    let deserialized = InvalidRequest::from_json(&json(known_good_json)).unwrap();
    assert_eq!(deserialized.id, Id::Number(1));

    println!("{}", known_good_json);
    let message = Message::from_json(&json(known_good_json)).unwrap();
    assert!(matches!(message, Message::InvalidRequest(_)));
}

#[test]
fn test_notification_serialization() {
    let known_good_json = r#"{"jsonrpc":"2.0","method":"notify_method","params":{"key":"value"}}"#;
    let known_good_value: Value = serde_json::from_str(known_good_json).unwrap();

    let params = json(r#"{"key": "value"}"#);
    let our_notification = Notification::new("notify_method".to_string(), Some(params));

    let our_json = print(&our_notification.to_json());
    let our_value: Value = serde_json::from_str(&our_json).unwrap();

    assert_eq!(known_good_value, our_value);

    let deserialized = Notification::from_json(&json(&our_json)).unwrap();
    assert_eq!(deserialized.method, our_notification.method);
    assert_eq!(deserialized.jsonrpc, TwoPointZero);

    let known_good_notification = Notification::from_json(&json(known_good_json)).unwrap();
    assert_eq!(known_good_notification.method, "notify_method");

    println!("{}", known_good_json);
    let message = Message::from_json(&json(known_good_json)).unwrap();
    assert!(matches!(message, Message::Notification(_)));
}

#[test]
fn test_success_response_serialization() {
    let known_good_json = r#"{"jsonrpc":"2.0","result":{"status":"success"},"id":42}"#;
    let known_good_value: Value = serde_json::from_str(known_good_json).unwrap();

    let result_raw = json(r#"{"status": "success"}"#);
    let id = Id::Number(42);
    let our_response = Response::success(id.clone(), result_raw.clone());

    let our_json = print(&our_response.to_json());
    let our_value: Value = serde_json::from_str(&our_json).unwrap();

    assert_eq!(known_good_value, our_value);

    let deserialized = Response::from_json(&json(&our_json)).unwrap();
    assert_eq!(deserialized.id, our_response.id);
    assert!(matches!(
        deserialized.payload,
        ResponsePayload::Success(SuccessResponse { result }) if result == result_raw
    ));

    let known_good_response = Response::from_json(&json(known_good_json)).unwrap();
    assert_eq!(known_good_response.id, our_response.id);
    assert!(matches!(
        known_good_response.payload,
        ResponsePayload::Success(SuccessResponse { result }) if result == result_raw
    ));

    println!("{}", known_good_json);
    let message = Message::from_json(&json(known_good_json)).unwrap();
    assert!(matches!(
        message,
        Message::Response(Response {
            payload: ResponsePayload::Success(_),
            ..
        })
    ));
}

#[test]
fn test_error_response_serialization() {
    let known_good_json = format!(
        "{}{}",
        r#"{"jsonrpc":"2.0","error":{"code":-32600,"message":"Invalid request","#,
        r#""data":{"details":"error details"}},"id":"error-id"}"#
    );
    let known_good_value: Value = serde_json::from_str(&known_good_json).unwrap();

    let id = Id::Str("error-id".into());
    let error_data = json(r#"{"details": "error details"}"#);
    let our_response = Response::error(
        id.clone(),
        ErrorCode::InvalidRequest,
        "Invalid request".to_string(),
        Some(error_data),
    );

    let our_json = print(&our_response.to_json());
    let our_value: Value = serde_json::from_str(&our_json).unwrap();

    assert_eq!(known_good_value, our_value);

    println!("{}", known_good_json);
    let message = Message::from_json(&json(&known_good_json)).unwrap();
    assert!(matches!(
        message,
        Message::Response(Response {
            payload: ResponsePayload::Error(ErrorResponse { error: ErrorDetails { code, .. } }),
            ..
        }) if code == ErrorCode::InvalidRequest
    ));
}

#[test]
fn test_json_rpc_protocol_spec_compliance() {
    let request_json = r#"{"jsonrpc":"2.0","method":"subtract","params":[42,23],"id":1}"#;
    let request = Request::from_json(&json(request_json)).unwrap();
    assert_eq!(request.method, "subtract");
    assert_eq!(request.id, Id::Number(1));

    let named_request_json =
        r#"{"jsonrpc":"2.0","method":"subtract","params":{"subtrahend":23,"minuend":42},"id":3}"#;
    let named_request = Request::from_json(&json(named_request_json)).unwrap();
    assert_eq!(named_request.method, "subtract");
    assert_eq!(named_request.id, Id::Number(3));

    let notification_json = r#"{"jsonrpc":"2.0","method":"update","params":[1,2,3,4,5]}"#;
    let notification = Notification::from_json(&json(notification_json)).unwrap();
    assert_eq!(notification.method, "update");

    let success_json = r#"{"jsonrpc":"2.0","result":19,"id":1}"#;
    let success_parsed: Value = serde_json::from_str(success_json).unwrap();

    let our_success = Response::success(Id::Number(1), json("19"));
    let our_success_json = print(&our_success.to_json());
    let our_success_parsed: Value = serde_json::from_str(&our_success_json).unwrap();

    assert_eq!(success_parsed, our_success_parsed);

    let error_json = r#"{"jsonrpc":"2.0","error":{"code":-32601,"message":"Method not found"},"id":"1"}"#;
    let error_parsed: Value = serde_json::from_str(error_json).unwrap();

    let our_error = Response::error(
        Id::Str("1".into()),
        ErrorCode::MethodNotFound,
        "Method not found".to_string(),
        None,
    );
    let our_error_json = print(&our_error.to_json());
    let our_error_parsed: Value = serde_json::from_str(&our_error_json).unwrap();

    assert_eq!(error_parsed, our_error_parsed);

    let our_request = Request::new(Id::Number(1), "subtract".to_string(), Some(json("[42, 23]")));
    let our_request_json = print(&our_request.to_json());
    let our_request_value: Value = serde_json::from_str(&our_request_json).unwrap();
    let spec_request_value: Value = serde_json::from_str(request_json).unwrap();
    assert_eq!(our_request_value, spec_request_value);

    let our_success_response = Response::success(Id::Number(1), json("19"));
    let our_success_json = print(&our_success_response.to_json());
    let our_success_value: Value = serde_json::from_str(&our_success_json).unwrap();
    let spec_success_value: Value = serde_json::from_str(success_json).unwrap();
    assert_eq!(our_success_value, spec_success_value);
}

#[test]
fn test_special_id_values() {
    let null_id = Id::Null;
    let null_id_request = Request::new(null_id, "method".to_string(), None);
    let null_id_json = print(&null_id_request.to_json());
    let parsed: Value = serde_json::from_str(&null_id_json).unwrap();

    assert_eq!(parsed["id"], Value::Null);

    let str_id = Id::Str("abc123".into());
    let str_id_request = Request::new(str_id, "method".to_string(), None);
    let str_id_json = print(&str_id_request.to_json());
    let parsed: Value = serde_json::from_str(&str_id_json).unwrap();

    assert_eq!(parsed["id"], Value::from("abc123"));

    let num_id = Id::Number(42);
    let num_id_request = Request::new(num_id, "method".to_string(), None);
    let num_id_json = print(&num_id_request.to_json());
    let parsed: Value = serde_json::from_str(&num_id_json).unwrap();

    assert_eq!(parsed["id"], Value::from(42));

    let null_id_spec = r#"{"jsonrpc":"2.0","method":"method","params":null,"id":null}"#;
    let str_id_spec = r#"{"jsonrpc":"2.0","method":"method","params":null,"id":"abc123"}"#;
    let num_id_spec = r#"{"jsonrpc":"2.0","method":"method","params":null,"id":42}"#;

    let null_req = Request::from_json(&json(null_id_spec)).unwrap();
    let str_req = Request::from_json(&json(str_id_spec)).unwrap();
    let num_req = Request::from_json(&json(num_id_spec)).unwrap();

    assert_eq!(null_req.id, Id::Null);
    assert_eq!(str_req.id, Id::Str("abc123".into()));
    assert_eq!(num_req.id, Id::Number(42));
}

#[test]
fn test_response_payload_serialize_to_success() {
    let test_struct = json(r#"{"value": "test", "number": 42}"#);

    let payload = ResponsePayload::serialize_to_success(Serialized {
        json: Ok(test_struct),
        type_label: "TestStruct",
    });

    match &payload {
        ResponsePayload::Success(success) => {
            assert_eq!(*member(&success.result, "value"), text("test"));
            assert_eq!(*member(&success.result, "number"), json("42"));
        }
        ResponsePayload::Error(_) => panic!("Expected Success variant"),
    }
}

#[test]
fn test_response_payload_serialization_errors() {
    let success = ResponsePayload::success(json(r#"{"status": "ok"}"#));
    let error = ResponsePayload::error(ErrorDetails::internal_error("Test error".to_string(), None));

    match success {
        ResponsePayload::Success(resp) => assert_eq!(*member(&resp.result, "status"), text("ok")),
        ResponsePayload::Error(_) => panic!("Expected Success variant"),
    }

    match error {
        ResponsePayload::Error(resp) => {
            assert_eq!(resp.error.code, ErrorCode::InternalError);
            assert_eq!(resp.error.message, "Test error");
        }
        ResponsePayload::Success(_) => panic!("Expected Error variant"),
    }
}

#[test]
fn test_message_from_str_and_into_string() {
    let valid_json = r#"{"jsonrpc":"2.0","method":"test_method","id":1}"#;
    let message = Message::from_str(valid_json, parse(valid_json)).unwrap();
    assert!(matches!(message, Message::Request(_)));

    let invalid_json = r#"{"jsonrpc":"2.0","method":}"#;
    let result = Message::from_str(invalid_json, parse(invalid_json));
    assert!(result.is_err());
    match result {
        Err(JsonRpcError::ParseJson { .. }) => {}
        _ => panic!("Expected ParseJson error"),
    }

    let request = Request::new(Id::Number(123), "test_method".to_string(), Some(json(r#"["param"]"#)));
    let message = Message::Request(request);
    let string = message.into_string(|json| Ok(print(json))).unwrap();

    let parsed: Value = serde_json::from_str(&string).unwrap();
    assert_eq!(parsed["jsonrpc"], "2.0");
    assert_eq!(parsed["method"], "test_method");
    assert_eq!(parsed["id"], 123);
}

#[test]
fn test_response_payload_error_method() {
    let error_details = ErrorDetails::new(
        ErrorCode::InvalidParams,
        "Invalid parameters".to_string(),
        Some(json(r#"{"parameter": "name"}"#)),
    );

    let payload = ResponsePayload::error(error_details);

    match payload {
        ResponsePayload::Error(response) => {
            assert_eq!(response.error.code, ErrorCode::InvalidParams);
            assert_eq!(response.error.message, "Invalid parameters");
            assert_eq!(
                *member(response.error.data.as_ref().unwrap(), "parameter"),
                text("name")
            );
        }
        _ => panic!("Expected Error variant"),
    }
}

#[test]
fn it_compiles() {
    // This just verifies the crate compiles
    assert!(true);
}
