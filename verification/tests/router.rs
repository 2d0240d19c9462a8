use mcpox_jsonrpc::error::JsonRpcError;
use mcpox_jsonrpc::handler::{
    extract, extract_method_arg, extract_method_args, extract_three_method_args, extracted_params,
    FromRequest, IntoResponse, InvocationRequest, InvocationType, Json, MethodName, Serialized,
    State,
};
use mcpox_jsonrpc::inbound::{
    AsyncInboundMessage, InboundMessage, InlineInboundMessage,
};
use mcpox_jsonrpc::json::{JsonNumber, JsonValue};
use mcpox_jsonrpc::operation::{combine_batch, invocation_answer, plan, Operation};
use mcpox_jsonrpc::router::{invocation_response, Dispatch, HandlerOutcome, Router};
use mcpox_jsonrpc::types::{
    ErrorCode, ErrorDetails, ErrorResponse, Id, InvalidRequest, Message, Notification, Request,
    Response, ResponsePayload, SuccessResponse,
};
use std::cell::{Cell, RefCell};
use std::rc::Rc;

fn text(s: &str) -> JsonValue {
    JsonValue::String(s.to_string())
}

fn number(n: u64) -> JsonValue {
    JsonValue::Number(JsonNumber::PosInt(n))
}

fn invocation(id: Option<Id>, method: &str, params: JsonValue) -> InvocationRequest {
    InvocationRequest { id, method: method.to_string(), params: Some(params) }
}

#[derive(Debug, PartialEq, Clone)]
enum Invoked {
    Method(String),
    Notification(String),
    FallbackMethod(String),
    FallbackNotification(String),
}

#[derive(Clone)]
struct TestState {
    invocations: Rc<RefCell<Vec<Invoked>>>,
    counter: Rc<Cell<u64>>,
}

type Handler = fn(&TestState, &InvocationRequest) -> JsonValue;

fn count(state: &TestState, invoked: Invoked) -> JsonValue {
    state.invocations.borrow_mut().push(invoked);
    state.counter.set(state.counter.get() + 1);
    number(state.counter.get())
}

fn test_handler(state: &TestState, request: &InvocationRequest) -> JsonValue {
    let (State(state), MethodName(name), kind) = extract_three_method_args::<
        TestState,
        State<TestState>,
        MethodName,
        InvocationType,
    >(request, state)
    .ok()
    .unwrap();
    let state = &state;
    match kind {
        InvocationType::Method => count(state, Invoked::Method(name)),
        InvocationType::Notification => count(state, Invoked::Notification(name)),
    }
}

fn test_fallback_handler(state: &TestState, request: &InvocationRequest) -> JsonValue {
    let (State(state), MethodName(name), kind) = extract_three_method_args::<
        TestState,
        State<TestState>,
        MethodName,
        InvocationType,
    >(request, state)
    .ok()
    .unwrap();
    let state = &state;
    match kind {
        InvocationType::Method => count(state, Invoked::FallbackMethod(name)),
        InvocationType::Notification => count(state, Invoked::FallbackNotification(name)),
    }
}

fn run(router: &Router<TestState, Handler>, request: InvocationRequest) -> Option<Response> {
    let outcome = match router.handle_invocation(&request) {
        Dispatch::Call { handler, state, as_method: true } => {
            HandlerOutcome::Response(handler(state, &request).into_response())
        }
        Dispatch::Call { handler, state, as_method: false } => {
            handler(state, &request);
            HandlerOutcome::NoResponse
        }
        Dispatch::Answer(payload) => HandlerOutcome::Response(payload),
    };
    invocation_response(request.id, outcome)
}

#[test]
fn test_handler_invocation_cases() {
    let test_state = TestState {
        invocations: Rc::new(RefCell::new(Vec::new())),
        counter: Rc::new(Cell::new(0)),
    };
    let mut router: Router<TestState, Handler> = Router::new_with_state(test_state.clone());
    router.register_fallback_handler(test_fallback_handler);
    router.register_handler("test_method".to_string(), test_handler);

    let request = invocation(Some(Id::Number(1)), "test_method", text("test_param"));
    match run(&router, request) {
        Some(Response {
            id: Id::Number(n),
            payload: ResponsePayload::Success(SuccessResponse { result }),
            ..
        }) => {
            assert_eq!(n, 1);
            assert_eq!(result, number(1));
        }
        _ => panic!("Response didn't match expected pattern for test_method"),
    }

    let request = invocation(None, "test_method", text("notification_param"));
    assert!(run(&router, request).is_none(), "Notification should not produce a response");

    let request = invocation(Some(Id::Number(2)), "unknown_method", text("unknown_param"));
    match run(&router, request) {
        Some(Response {
            id: Id::Number(n),
            payload: ResponsePayload::Success(SuccessResponse { result }),
            ..
        }) => {
            assert_eq!(n, 2);
            assert_eq!(result, number(3)); // skip 2 because that was a notification
        }
        _ => panic!("Response didn't match expected pattern for test_method"),
    }

    let request = invocation(None, "unknown_notification", text("unknown_notification_param"));
    assert!(
        run(&router, request).is_none(),
        "Unknown notification should not produce a response"
    );

    let invocations = test_state.invocations.borrow();
    assert_eq!(invocations.len(), 4);
    assert_eq!(invocations[0], Invoked::Method("test_method".to_string()));
    assert_eq!(invocations[1], Invoked::Notification("test_method".to_string()));
    assert_eq!(invocations[2], Invoked::FallbackMethod("unknown_method".to_string()));
    assert_eq!(
        invocations[3],
        Invoked::FallbackNotification("unknown_notification".to_string())
    );
}

#[test]
fn a_panic_is_answered_and_a_panic_of_a_notification_is_not() {
    match invocation_response(Some(Id::Number(1)), HandlerOutcome::Panicked) {
        Some(Response {
            id: Id::Number(n),
            payload: ResponsePayload::Error(ErrorResponse { error: ErrorDetails { code, message, .. } }),
            ..
        }) => {
            assert_eq!(n, 1);
            assert_eq!(code, ErrorCode::InternalError);
            assert_eq!(message, "The requested handler encountered a serious error");
        }
        _ => panic!("Response didn't match expected pattern"),
    }
    assert!(invocation_response(None, HandlerOutcome::Panicked).is_none());
    assert!(invocation_response(None, HandlerOutcome::NoResponse).is_none());
}

#[test]
fn an_unknown_method_is_reported_by_name() {
    let router: Router<(), u8> = Router::new_stateless();
    let request = invocation(Some(Id::Null), "nope", JsonValue::Null);
    match router.handle_invocation(&request) {
        Dispatch::Answer(ResponsePayload::Error(failure)) => {
            assert_eq!(failure.error.code, ErrorCode::MethodNotFound);
            assert_eq!(failure.error.message, "Unknown method 'nope'");
            assert_eq!(failure.error.data, None);
        }
        _ => panic!("not refused"),
    }
    match router.handle_invocation(&invocation(None, "nope", JsonValue::Null)) {
        Dispatch::Answer(ResponsePayload::Error(failure)) => {
            assert_eq!(failure.error.message, "Unknown notification");
        }
        _ => panic!("not refused"),
    }
}

#[test]
fn a_later_handler_takes_the_place_of_an_earlier_one() {
    let mut router: Router<u8, u8> = Router::new_with_state(7);
    assert_eq!(*router.state(), 7);
    router.register_handler("m".to_string(), 1);
    router.register_handler("n".to_string(), 2);
    router.register_handler("m".to_string(), 3);
    let find = |name: &str| match router.handle_invocation(&invocation(None, name, JsonValue::Null)) {
        Dispatch::Call { handler, state, as_method } => Some((*handler, *state, as_method)),
        Dispatch::Answer(_) => None,
    };
    assert_eq!(find("m"), Some((3, 7, false)));
    assert_eq!(find("n"), Some((2, 7, false)));
    assert_eq!(find("x"), None);
}

#[test]
fn arguments_are_taken_from_the_invocation() {
    let call = invocation(Some(Id::Number(4)), "m", number(9));
    let raise = InvocationRequest { id: None, method: "n".to_string(), params: None };

    let Json(params) = <Json<JsonValue> as FromRequest<()>>::from_request(&call, &()).ok().unwrap();
    assert_eq!(params, number(9));
    let Json(params) = <Json<JsonValue> as FromRequest<()>>::from_request(&raise, &()).ok().unwrap();
    assert_eq!(params, JsonValue::Null);

    let (State(state),) = extract_method_arg::<u8, State<u8>>(&call, &5).ok().unwrap();
    assert_eq!(state, 5);
    let (id,) = extract_method_arg::<(), Option<Id>>(&call, &()).ok().unwrap();
    assert_eq!(id, Some(Id::Number(4)));
    let (id,) = extract_method_arg::<(), Option<Id>>(&raise, &()).ok().unwrap();
    assert_eq!(id, None);
    let (MethodName(name),) = extract_method_arg::<(), MethodName>(&raise, &()).ok().unwrap();
    assert_eq!(name, "n");
    let (kind,) = extract_method_arg::<(), InvocationType>(&raise, &()).ok().unwrap();
    assert_eq!(kind, InvocationType::Notification);

    let (id, Json(params)) =
        extract_method_args::<(), Id, Json<JsonValue>>(&call, &()).ok().unwrap();
    assert_eq!(id, Id::Number(4));
    assert_eq!(params, number(9));
}

#[test]
fn the_first_rejection_is_what_the_caller_gets() {
    let raise = InvocationRequest { id: None, method: "n".to_string(), params: None };
    let refused = |payload: ResponsePayload| match payload {
        ResponsePayload::Error(failure) => (failure.error.code, failure.error.message),
        ResponsePayload::Success(_) => panic!("not refused"),
    };
    let payload = extract_method_arg::<(), Id>(&raise, &()).err().unwrap();
    let expected = "This method cannot be invoked as a notification".to_string();
    assert_eq!(refused(payload), (ErrorCode::InvalidParams, expected.clone()));
    let payload = extract_method_args::<(), MethodName, Id>(&raise, &()).err().unwrap();
    assert_eq!(refused(payload), (ErrorCode::InvalidParams, expected.clone()));
    let payload = extract_method_args::<(), Id, MethodName>(&raise, &()).err().unwrap();
    assert_eq!(refused(payload), (ErrorCode::InvalidParams, expected));
}

#[test]
fn parameters_that_do_not_fit_are_refused() {
    match extracted_params::<u8>(text("x"), Err("bad".to_string()), "u8") {
        Err(JsonRpcError::DeserRequest { source, type_label, request }) => {
            assert_eq!(source, "bad");
            assert_eq!(type_label, "u8");
            assert_eq!(request, text("x"));
        }
        _ => panic!("not refused"),
    }
    let Json(value) = extracted_params::<u8>(number(3), Ok(3), "u8").ok().unwrap();
    assert_eq!(value, 3);
}

#[test]
fn what_handlers_return_becomes_a_payload() {
    assert!(matches!(
        number(1).into_response(),
        ResponsePayload::Success(s) if s.result == number(1)
    ));
    assert!(matches!(
        JsonRpcError::Cancelled.into_response(),
        ResponsePayload::Error(e) if e.error.message == "Operation was cancelled by request"
    ));
    assert!(matches!(
        ErrorDetails::server_error(1, "x".to_string(), None).into_response(),
        ResponsePayload::Error(e) if e.error.code == ErrorCode::ServerError(1)
    ));
    let failed = Serialized { json: Err("secret".to_string()), type_label: "T" };
    assert!(matches!(
        failed.into_response(),
        ResponsePayload::Error(e) if e.error.message == "Error serializing response"
            && e.error.code == ErrorCode::InternalError
    ));
    let fine: Result<Serialized, ErrorDetails> =
        Ok(Serialized { json: Ok(number(2)), type_label: "T" });
    assert!(matches!(fine.into_response(), ResponsePayload::Success(s) if s.result == number(2)));
    let failed: Result<Serialized, ErrorDetails> =
        Err(ErrorDetails::invalid_params("p".to_string(), None));
    assert!(matches!(
        failed.into_response(),
        ResponsePayload::Error(e) if e.error.code == ErrorCode::InvalidParams
    ));
}

fn call(n: u64) -> Message {
    Message::Request(Request::new(Id::Number(n), "m".to_string(), None))
}

fn raise() -> Message {
    Message::Notification(Notification::new("n".to_string(), None))
}

fn answer(n: u64) -> Message {
    Message::Response(Response::success(Id::Number(n), JsonValue::Null))
}

#[test]
fn messages_are_sorted_by_how_they_are_processed() {
    assert!(matches!(
        InboundMessage::try_from(answer(1)),
        Ok(InboundMessage::Inline(InlineInboundMessage::Response(_)))
    ));
    assert!(matches!(
        InboundMessage::try_from(call(1)),
        Ok(InboundMessage::Async(AsyncInboundMessage::Request(_)))
    ));
    assert!(matches!(
        InboundMessage::try_from(raise()),
        Ok(InboundMessage::Async(AsyncInboundMessage::Notification(_)))
    ));
    assert!(matches!(
        InboundMessage::try_from(Message::InvalidRequest(InvalidRequest { id: Id::Null })),
        Ok(InboundMessage::Async(AsyncInboundMessage::InvalidRequest(_)))
    ));
    assert!(matches!(
        InboundMessage::try_from(Message::Batch(vec![answer(1), Message::Batch(vec![answer(2)])])),
        Ok(InboundMessage::Inline(InlineInboundMessage::Batch(inline))) if inline.len() == 2
    ));
    assert!(matches!(
        InboundMessage::try_from(Message::Batch(vec![call(1), raise()])),
        Ok(InboundMessage::Async(AsyncInboundMessage::Batch(rest))) if rest.len() == 2
    ));
    assert!(matches!(
        InboundMessage::try_from(Message::Batch(vec![call(1), answer(2), raise()])),
        Ok(InboundMessage::Hybrid(
            InlineInboundMessage::Batch(inline),
            AsyncInboundMessage::Batch(rest)
        )) if inline.len() == 1 && rest.len() == 2
    ));
    let error = InboundMessage::try_from(Message::Batch(vec![])).err().unwrap();
    assert_eq!(error.message, "Empty batch message is not valid");
}

fn process(operation: Operation) -> Option<Message> {
    match operation {
        Operation::Invoke(request) => {
            let outcome = if request.id.is_some() {
                HandlerOutcome::Response(text(&request.method).into_response())
            } else {
                HandlerOutcome::NoResponse
            };
            invocation_answer(invocation_response(request.id, outcome))
        }
        Operation::Answer(message) => Some(message),
        Operation::Batch(operations) => combine_batch(operations.into_iter().map(process).collect()),
    }
}

#[test]
fn a_batch_gets_one_answer_to_each_call() {
    let message = AsyncInboundMessage::Batch(vec![
        AsyncInboundMessage::Request(Request::new(Id::Number(1), "a".to_string(), None)),
        AsyncInboundMessage::Notification(Notification::new("n".to_string(), None)),
        AsyncInboundMessage::InvalidRequest(InvalidRequest { id: Id::Number(2) }),
        AsyncInboundMessage::Request(Request::new(Id::Number(3), "b".to_string(), None)),
    ]);
    match process(plan(message)) {
        Some(Message::Batch(answers)) => {
            assert_eq!(answers.len(), 3);
            assert!(matches!(&answers[0], Message::Response(r) if r.id == Id::Number(1)));
            assert!(matches!(
                &answers[1],
                Message::Response(Response { id: Id::Number(2), payload: ResponsePayload::Error(e), .. })
                    if e.error.code == ErrorCode::InvalidRequest && e.error.message == "Invalid request"
            ));
            assert!(matches!(&answers[2], Message::Response(r) if r.id == Id::Number(3)));
        }
        _ => panic!("not a batch"),
    }
}

#[test]
fn a_batch_of_notifications_is_not_answered() {
    let message = AsyncInboundMessage::Batch(vec![AsyncInboundMessage::Notification(
        Notification::new("n".to_string(), None),
    )]);
    assert!(process(plan(message)).is_none());
    assert!(combine_batch(vec![]).is_none());
    assert!(combine_batch(vec![None, None]).is_none());
}

#[test]
fn single_messages_are_answered_under_their_id() {
    let message = AsyncInboundMessage::Request(Request::new(
        Id::Str("x".to_string()),
        "m".to_string(),
        Some(number(1)),
    ));
    match plan(message) {
        Operation::Invoke(request) => {
            assert_eq!(request.id, Some(Id::Str("x".to_string())));
            assert_eq!(request.method, "m");
            assert_eq!(request.json_params(), number(1));
        }
        _ => panic!("not an invocation"),
    }
    let message = AsyncInboundMessage::InvalidRequest(InvalidRequest { id: Id::Null });
    assert!(matches!(
        process(plan(message)),
        Some(Message::Response(Response { id: Id::Null, .. }))
    ));
    let message = AsyncInboundMessage::Notification(Notification::new("n".to_string(), None));
    assert!(process(plan(message)).is_none());
}

#[test]
fn what_handles_everything_else_gets_invocations_as_what_they_are() {
    let mut router: Router<u8, &'static str> = Router::new_with_state(4);
    router.register_fallback_handler("F");
    router.register_handler("m".to_string(), "M");
    let find = |id: Option<Id>, name: &str| {
        match router.handle_invocation(&invocation(id, name, JsonValue::Null)) {
            Dispatch::Call { handler, state, as_method } => (*handler, *state, as_method),
            Dispatch::Answer(_) => panic!("no handler"),
        }
    };
    assert_eq!(find(None, "x"), ("F", 4, false));
    assert_eq!(find(Some(Id::Number(1)), "x"), ("F", 4, true));
    assert_eq!(find(None, "m"), ("M", 4, false));
    assert_eq!(find(Some(Id::Number(1)), "m"), ("M", 4, true));
}

#[test]
fn three_arguments_are_taken_in_turn() {
    let raise = InvocationRequest { id: None, method: "n".to_string(), params: None };
    let (State(state), MethodName(name), kind) =
        extract_three_method_args::<u8, State<u8>, MethodName, InvocationType>(&raise, &6)
            .ok()
            .unwrap();
    assert_eq!((state, name.as_str(), kind), (6, "n", InvocationType::Notification));
    let refused =
        extract_three_method_args::<u8, State<u8>, MethodName, Id>(&raise, &6).err().unwrap();
    assert!(matches!(
        refused,
        ResponsePayload::Error(e) if e.error.code == ErrorCode::InvalidParams
    ));
    assert!(extract_three_method_args::<u8, Id, MethodName, State<u8>>(&raise, &6).is_err());
    assert!(extract_three_method_args::<u8, MethodName, Id, State<u8>>(&raise, &6).is_err());
    let MethodName(name) = extract::<u8, MethodName>(&raise, &6).ok().unwrap();
    assert_eq!(name, "n");
}

#[test]
fn clones_share_handlers_and_have_their_own_fallback() {
    let mut router: Router<(), &str> = Router::new_stateless();
    assert_eq!(router.fallback(), None);
    router.register_fallback_handler("F");
    let fallback = router.fallback().copied();
    assert_eq!(fallback, Some("F"));

    router.register_fallback_handler("G");
    router.register_handler("a".to_string(), "A");
    let found = |fallback: Option<&'static str>, method: &str| {
        let request = invocation(Some(Id::Null), method, JsonValue::Null);
        match router.handle_invocation_with(fallback.as_ref(), &request) {
            Dispatch::Call { handler, as_method, .. } => {
                assert!(as_method);
                Some(*handler)
            }
            Dispatch::Answer(_) => None,
        }
    };
    assert_eq!(found(fallback, "a"), Some("A"));
    assert_eq!(found(fallback, "b"), Some("F"));
    assert_eq!(found(None, "a"), Some("A"));
    assert_eq!(found(None, "b"), None);
    assert_eq!(found(router.fallback().copied(), "b"), Some("G"));
}

#[test]
fn parts_of_messages_can_be_cloned() {
    let invalid = InvalidRequest { id: Id::Number(7) };
    assert_eq!(invalid.clone().id, Id::Number(7));
    let success = SuccessResponse { result: number(3) };
    assert_eq!(success.clone().result, number(3));
    let error = ErrorResponse {
        error: ErrorDetails::invalid_request("no".to_string(), Some(text("why"))),
    };
    let copy = error.clone().error;
    assert_eq!(copy.code, ErrorCode::InvalidRequest);
    assert_eq!(copy.message, "no");
    assert_eq!(copy.data, Some(text("why")));
}
