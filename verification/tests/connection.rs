use mcpox_jsonrpc::connection::{
    handle_outbound_message, AwaitingSend, Command, CommandAction, Completion, Event,
    InboundActions, OutboundMessage, Reply, ServiceConnection, Step,
};
use mcpox_jsonrpc::error::{JsonRpcError, PanicPayload};
use mcpox_jsonrpc::inbound::AsyncInboundMessage;
use mcpox_jsonrpc::json::{JsonNumber, JsonValue};
use mcpox_jsonrpc::operation::{invocation_answer, plan, Operation};
use mcpox_jsonrpc::router::{invocation_response, HandlerOutcome};
use mcpox_jsonrpc::shutdown::{
    begin_shutdown, event_loop_result, event_loop_started, refuse_outbound_message,
    service_connection, shutdown_step, termination, LoopOutcome, ShutdownPhase, ShutdownStep, WaitOutcome,
    CONNECTION_CHANNEL_BOUNDS,
};
use mcpox_jsonrpc::types::{
    ErrorCode, ErrorDetails, Id, Message, Notification, Request, Response, ResponsePayload,
};

type Connection = ServiceConnection<&'static str>;
type Outbound = OutboundMessage<&'static str, &'static str>;
type Next = Step<&'static str, &'static str>;

fn text(s: &str) -> JsonValue {
    JsonValue::String(s.to_string())
}

fn number(n: u64) -> JsonValue {
    JsonValue::Number(JsonNumber::PosInt(n))
}

fn id(s: &str) -> Id {
    Id::Str(s.to_string())
}

fn request(name: &str) -> Request {
    Request::new(id(name), "m".to_string(), None)
}

fn success(name: &str) -> Message {
    Message::Response(Response::success(id(name), text(name)))
}

fn method(name: &str, tx: &'static str) -> Outbound {
    OutboundMessage::Method { request: request(name), response_tx: tx }
}

fn send(connection: &mut Connection, outbound: Outbound, result: Result<(), JsonRpcError>) -> Vec<Reply<&'static str, &'static str>> {
    let (_, awaiting) = handle_outbound_message(outbound);
    connection.outbound_message_sent(awaiting, result)
}

fn receive(connection: &mut Connection, message: Message) -> Result<InboundActions<&'static str>, ErrorDetails> {
    connection.handle_inbound_message("", Ok(message.to_json()))
}

fn answers(actions: &InboundActions<&'static str>) -> Vec<(&'static str, Id)> {
    actions.answers.iter().map(|(tx, r)| (*tx, r.id.clone())).collect()
}

fn error_of(message: &Message) -> (Id, ErrorCode, String, Option<JsonValue>) {
    match message {
        Message::Response(Response { payload: ResponsePayload::Error(failure), id, .. }) => (
            id.clone(),
            failure.error.code,
            failure.error.message.clone(),
            failure.error.data.clone(),
        ),
        _ => panic!("not an error"),
    }
}

#[test]
fn an_answer_reaches_the_one_who_called() {
    let mut connection = Connection::new();
    assert!(send(&mut connection, method("a", "A"), Ok(())).is_empty());
    assert!(send(&mut connection, method("b", "B"), Ok(())).is_empty());

    let actions = receive(&mut connection, success("b")).unwrap();
    assert_eq!(answers(&actions), vec![("B", id("b"))]);
    assert!(actions.spawn.is_none());

    // The second response to the same call is dropped, and so is one that nobody waits for.
    assert!(receive(&mut connection, success("b")).unwrap().answers.is_empty());
    assert!(receive(&mut connection, success("x")).unwrap().answers.is_empty());

    let actions = receive(&mut connection, success("a")).unwrap();
    assert_eq!(answers(&actions), vec![("A", id("a"))]);
}

#[test]
fn a_call_that_could_not_be_sent_fails_at_once() {
    let mut connection = Connection::new();
    let error = JsonRpcError::Transport { source: "gone".to_string() };
    let replies = send(&mut connection, method("a", "A"), Err(error));
    assert_eq!(replies.len(), 1);
    assert!(matches!(
        &replies[0],
        Reply::Response { tx: "A", result: Err(JsonRpcError::Transport { source }) } if source == "gone"
    ));
    assert!(receive(&mut connection, success("a")).unwrap().answers.is_empty());
}

#[test]
fn a_notification_is_confirmed() {
    let mut connection = Connection::new();
    let raise = || OutboundMessage::Notification {
        notification: Notification::new("n".to_string(), None),
        send_confirmation_tx: "C",
    };
    let replies = send(&mut connection, raise(), Ok(()));
    assert!(matches!(&replies[..], [Reply::Confirmation { tx: "C", result: Ok(()) }]));
    let replies = send(&mut connection, raise(), Err(JsonRpcError::Cancelled));
    assert!(matches!(
        &replies[..],
        [Reply::Confirmation { tx: "C", result: Err(JsonRpcError::Cancelled) }]
    ));
}

fn batch() -> Outbound {
    OutboundMessage::Batch {
        requests: vec![(request("a"), "A"), (request("b"), "B")],
        notifications: vec![Notification::new("n".to_string(), None)],
        send_confirmation_tx: "C",
    }
}

#[test]
fn a_batch_holds_calls_and_then_notifications() {
    let (message, awaiting) = handle_outbound_message(batch());
    match message {
        Message::Batch(messages) => {
            assert_eq!(messages.len(), 3);
            assert!(matches!(&messages[0], Message::Request(r) if r.id == id("a")));
            assert!(matches!(&messages[1], Message::Request(r) if r.id == id("b")));
            assert!(matches!(&messages[2], Message::Notification(n) if n.method == "n"));
        }
        _ => panic!("not a batch"),
    }
    match awaiting {
        AwaitingSend::Batch { response_txs, send_confirmation_tx } => {
            assert_eq!(response_txs, vec![(id("a"), "A"), (id("b"), "B")]);
            assert_eq!(send_confirmation_tx, "C");
        }
        _ => panic!("not a batch"),
    }
}

#[test]
fn the_calls_of_a_sent_batch_wait() {
    let mut connection = Connection::new();
    let replies = send(&mut connection, batch(), Ok(()));
    assert!(matches!(&replies[..], [Reply::Confirmation { tx: "C", result: Ok(()) }]));

    let message = Message::Batch(vec![success("b"), success("a"), success("b")]);
    let actions = receive(&mut connection, message).unwrap();
    assert_eq!(answers(&actions), vec![("B", id("b")), ("A", id("a"))]);
    assert!(actions.spawn.is_none());
}

#[test]
fn a_batch_that_could_not_be_sent_fails_every_call() {
    let mut connection = Connection::new();
    let error = JsonRpcError::Transport { source: "gone".to_string() };
    let replies = send(&mut connection, batch(), Err(error));
    assert_eq!(replies.len(), 3);
    assert!(matches!(
        &replies[0],
        Reply::Response { tx: "A", result: Err(JsonRpcError::BatchSendFailed) }
    ));
    assert!(matches!(
        &replies[1],
        Reply::Response { tx: "B", result: Err(JsonRpcError::BatchSendFailed) }
    ));
    assert!(matches!(
        &replies[2],
        Reply::Confirmation { tx: "C", result: Err(JsonRpcError::Transport { .. }) }
    ));
    assert!(receive(&mut connection, success("a")).unwrap().answers.is_empty());
}

#[test]
fn a_mixed_batch_is_split() {
    let mut connection = Connection::new();
    send(&mut connection, method("a", "A"), Ok(()));
    let message = Message::Batch(vec![
        Message::Request(request("q")),
        Message::Batch(vec![
            success("a"),
            Message::Notification(Notification::new("n".to_string(), None)),
        ]),
    ]);
    let actions = receive(&mut connection, message).unwrap();
    assert_eq!(answers(&actions), vec![("A", id("a"))]);
    let spawn = actions.spawn.unwrap();
    assert_eq!(spawn.request_id, None);
    match spawn.message {
        AsyncInboundMessage::Batch(messages) => {
            assert_eq!(messages.len(), 2);
            assert!(matches!(&messages[0], AsyncInboundMessage::Request(r) if r.id == id("q")));
            assert!(matches!(&messages[1], AsyncInboundMessage::Notification(_)));
        }
        _ => panic!("not a batch"),
    }
}

#[test]
fn an_id_is_taken_while_its_call_is_pending() {
    let mut connection = Connection::new();
    let call = || Message::Request(Request::new(Id::Number(5), "add".to_string(), None));
    let spawn = receive(&mut connection, call()).unwrap().spawn.unwrap();
    assert_eq!(spawn.request_id, Some(Id::Number(5)));
    assert!(!connection.is_task_pending(1));
    connection.operation_spawned(1, spawn.request_id);
    assert!(connection.is_task_pending(1));
    assert!(!connection.is_idle());

    let error = receive(&mut connection, call()).err().unwrap();
    assert_eq!(error.code, ErrorCode::InvalidRequest);
    assert_eq!(error.message, "Duplicate request ID");
    assert_eq!(
        error.data,
        Some(JsonValue::Object(vec![
            ("duplicated_request_id".to_string(), number(5)),
            ("method".to_string(), text("add"))
        ]))
    );

    // The same id inside a batch is not refused.
    let actions = receive(&mut connection, Message::Batch(vec![call()])).unwrap();
    assert_eq!(actions.spawn.unwrap().request_id, None);

    let answer = Message::Response(Response::success(Id::Number(5), JsonValue::Null));
    let sent = connection.handle_pending_operation_completion(Completion::Finished {
        task_id: 1,
        response: Some(answer),
    });
    assert!(matches!(sent, Some(Message::Response(r)) if r.id == Id::Number(5)));
    assert!(connection.is_idle());
    assert!(receive(&mut connection, call()).unwrap().spawn.is_some());
}

#[test]
fn texts_that_hold_no_message_are_refused() {
    let mut connection = Connection::new();
    for json in vec![Err("EOF".to_string()), Ok(number(1))] {
        let error = connection.handle_inbound_message("?", json).err().unwrap();
        assert_eq!(error.code, ErrorCode::ParseError);
        assert_eq!(error.message, "Parse error");
        assert_eq!(error.data, None);
    }
    let empty = Message::Batch(vec![Message::Batch(vec![])]);
    let error = receive(&mut connection, empty).err().unwrap();
    assert_eq!(error.code, ErrorCode::InvalidRequest);
    assert_eq!(error.message, "Empty batch message is not valid");
}

#[test]
fn a_cancelled_call_of_ours_gets_no_answer() {
    let mut connection = Connection::new();
    send(&mut connection, method("a", "A"), Ok(()));
    let cancel = || Command::CancelPendingOutboundRequest { request_id: id("a") };
    assert!(matches!(
        connection.handle_command(cancel()),
        CommandAction::Answer { tx: "A", error: JsonRpcError::Cancelled }
    ));
    assert!(matches!(connection.handle_command(cancel()), CommandAction::Nothing));
    assert!(receive(&mut connection, success("a")).unwrap().answers.is_empty());
}

#[test]
fn a_cancelled_call_of_theirs_stays_pending() {
    let mut connection = Connection::new();
    connection.operation_spawned(9, Some(Id::Number(1)));
    let cancel = |n: u64| Command::CancelPendingInboundRequest { request_id: Id::Number(n) };
    assert!(matches!(connection.handle_command(cancel(2)), CommandAction::Nothing));
    assert!(matches!(connection.handle_command(cancel(1)), CommandAction::Signal { task_id: 9 }));
    assert!(matches!(
        connection.handle_command(cancel(1)),
        CommandAction::AlreadySignalled { task_id: 9 }
    ));
    assert!(connection.is_task_pending(9));
    let sent = connection.handle_pending_operation_completion(Completion::Failed { task_id: 9 });
    assert_eq!(
        error_of(&sent.unwrap()),
        (
            Id::Number(1),
            ErrorCode::InternalError,
            "Task was cancelled or panicked".to_string(),
            None
        )
    );
    assert!(matches!(connection.handle_command(cancel(1)), CommandAction::Nothing));
}

#[test]
fn operations_without_an_id_leave_no_trace() {
    let mut connection = Connection::new();
    connection.operation_spawned(3, None);
    assert!(connection.is_idle());
    assert!(connection
        .handle_pending_operation_completion(Completion::Failed { task_id: 3 })
        .is_none());
    assert!(connection
        .handle_pending_operation_completion(Completion::Finished { task_id: 4, response: None })
        .is_none());
}

fn step(connection: &mut Connection, event: Event<&'static str, &'static str>) -> Next {
    connection.handle_event(event)
}

#[test]
fn the_event_loop_answers_what_it_refuses_without_an_id() {
    let mut connection = Connection::new();
    let event = Event::Received(Ok(Some(("{".to_string(), Err("EOF".to_string())))));
    match step(&mut connection, event) {
        Step::Answer(message) => assert_eq!(
            error_of(&message),
            (Id::Null, ErrorCode::ParseError, "Parse error".to_string(), None)
        ),
        _ => panic!("not answered"),
    }
    let event = Event::Received(Ok(Some(("[]".to_string(), Ok(JsonValue::Array(vec![]))))));
    match step(&mut connection, event) {
        Step::Answer(message) => assert_eq!(
            error_of(&message),
            (
                Id::Null,
                ErrorCode::InvalidRequest,
                "Empty batch message is not valid".to_string(),
                None
            )
        ),
        _ => panic!("not answered"),
    }
}

#[test]
fn the_event_loop_goes_on() {
    let mut connection = Connection::new();
    assert!(matches!(
        step(&mut connection, Event::Outbound(Some(method("a", "A")))),
        Step::Send { message: Message::Request(_), awaiting: AwaitingSend::Method { response_tx: "A", .. } }
    ));
    let cancel = Command::CancelPendingOutboundRequest { request_id: id("a") };
    assert!(matches!(
        step(&mut connection, Event::Command(Some(cancel))),
        Step::Command(CommandAction::Nothing)
    ));
    let json = Message::Request(request("q")).to_json();
    match step(&mut connection, Event::Received(Ok(Some(("".to_string(), Ok(json)))))) {
        Step::Inbound(actions) => {
            assert!(actions.answers.is_empty());
            assert_eq!(actions.spawn.unwrap().request_id, Some(id("q")));
        }
        _ => panic!("not taken in"),
    }
    connection.operation_spawned(1, Some(id("q")));
    let failed = Event::OperationCompleted(Completion::Failed { task_id: 1 });
    assert!(matches!(step(&mut connection, failed), Step::Answer(_)));
    let finished = Completion::Finished { task_id: 2, response: None };
    assert!(matches!(step(&mut connection, Event::OperationCompleted(finished)), Step::Wait));
    assert!(matches!(step(&mut connection, Event::CustomEventLoop(Ok(()))), Step::Wait));
}

#[test]
fn the_event_loop_stops() {
    let mut connection = Connection::new();
    assert!(matches!(step(&mut connection, Event::Received(Ok(None))), Step::Stop(Ok(()))));
    let error = JsonRpcError::Transport { source: "t".to_string() };
    assert!(matches!(
        step(&mut connection, Event::Received(Err(error))),
        Step::Stop(Err(JsonRpcError::Transport { source })) if source == "t"
    ));
    assert!(matches!(
        step(&mut connection, Event::CancellationRequested),
        Step::Stop(Err(JsonRpcError::Cancelled))
    ));
    assert!(matches!(
        step(&mut connection, Event::CustomEventLoop(Err("c".to_string()))),
        Step::Stop(Err(JsonRpcError::CustomEventLoopError { source })) if source == "c"
    ));
    assert!(matches!(
        step(&mut connection, Event::Command(None)),
        Step::Stop(Err(JsonRpcError::Bug { message }))
            if message == "Handle closed connection to command channel"
    ));
    assert!(matches!(
        step(&mut connection, Event::Outbound(None)),
        Step::Stop(Err(JsonRpcError::Bug { message }))
            if message == "Handle closed connection to outbound messages channel"
    ));
}

#[test]
fn a_connection_starts_unless_it_was_cancelled() {
    assert!(service_connection::<u8>(false).unwrap().is_idle());
    assert!(matches!(service_connection::<u8>(true).err(), Some(JsonRpcError::Cancelled)));
    assert!(event_loop_started(true).is_ok());
    assert!(matches!(
        event_loop_started(false),
        Err(JsonRpcError::Bug { message })
            if message == "oneshot channel dropped immediately after spawning connection event loop"
    ));
    assert_eq!(CONNECTION_CHANNEL_BOUNDS, 16);
}

#[test]
fn shutdown_waits_and_then_aborts() {
    let mut connection = Connection::new();
    connection.operation_spawned(1, Some(Id::Number(1)));
    connection.operation_spawned(2, Some(Id::Number(2)));

    let done = Completion::Finished { task_id: 1, response: Some(success("x")) };
    assert!(matches!(
        shutdown_step(&mut connection, ShutdownPhase::Waiting, WaitOutcome::Completed(done)),
        ShutdownStep::Continue { answer: Some(_) }
    ));
    assert!(matches!(
        shutdown_step(&mut connection, ShutdownPhase::Waiting, WaitOutcome::TimedOut),
        ShutdownStep::AbortAll
    ));
    assert!(matches!(
        shutdown_step(&mut connection, ShutdownPhase::Aborting, WaitOutcome::TimedOut),
        ShutdownStep::Continue { answer: None }
    ));
    let failed = Completion::Failed { task_id: 2 };
    match shutdown_step(&mut connection, ShutdownPhase::Aborting, WaitOutcome::Completed(failed)) {
        ShutdownStep::Continue { answer: Some(message) } => {
            let (id, code, message, _) = error_of(&message);
            assert_eq!(id, Id::Number(2));
            assert_eq!(code, ErrorCode::InternalError);
            assert!(message.contains("cancel"));
        }
        _ => panic!("no answer"),
    }
    assert!(connection.is_idle());
    assert!(matches!(
        shutdown_step(&mut connection, ShutdownPhase::Aborting, WaitOutcome::Drained),
        ShutdownStep::Done
    ));
}

#[test]
fn everyone_who_waits_is_told_that_the_connection_closes() {
    let mut connection = Connection::new();
    send(&mut connection, method("a", "A"), Ok(()));
    send(&mut connection, method("b", "B"), Ok(()));
    let replies: Vec<Reply<&'static str, ()>> = connection.close();
    let mut told: Vec<&'static str> = replies
        .into_iter()
        .map(|reply| match reply {
            Reply::Response { tx, result: Err(JsonRpcError::PendingRequestConnectionClosed) } => tx,
            _ => panic!("something else was told"),
        })
        .collect();
    told.sort();
    assert_eq!(told, vec!["A", "B"]);
    let again: Vec<Reply<&'static str, ()>> = connection.close();
    assert!(again.is_empty());
}

#[test]
fn what_is_still_queued_is_refused() {
    let closed = |result: &Result<(), JsonRpcError>| {
        matches!(result, Err(JsonRpcError::PendingRequestConnectionClosed))
    };
    let replies = refuse_outbound_message(method("a", "A"));
    assert!(matches!(
        &replies[..],
        [Reply::Response { tx: "A", result: Err(JsonRpcError::PendingRequestConnectionClosed) }]
    ));
    let raise: Outbound = OutboundMessage::Notification {
        notification: Notification::new("n".to_string(), None),
        send_confirmation_tx: "C",
    };
    let replies = refuse_outbound_message(raise);
    assert!(matches!(&replies[..], [Reply::Confirmation { tx: "C", result }] if closed(result)));
    let replies = refuse_outbound_message(batch());
    assert_eq!(replies.len(), 3);
    assert!(matches!(&replies[0], Reply::Response { tx: "A", .. }));
    assert!(matches!(&replies[1], Reply::Response { tx: "B", .. }));
    assert!(matches!(&replies[2], Reply::Confirmation { tx: "C", result } if closed(result)));
}

#[test]
fn the_end_of_the_event_loop_is_reported() {
    let (result, reason) = termination(Ok(()));
    assert!(result.is_ok());
    assert_eq!(reason, "remote_peer_closed_connection");
    let (result, reason) = termination(Err(JsonRpcError::Cancelled));
    assert!(result.is_ok());
    assert_eq!(reason, "cancelled_token_triggered");
    let (result, reason) = termination(Err(JsonRpcError::BatchSendFailed));
    assert!(matches!(result, Err(JsonRpcError::BatchSendFailed)));
    assert_eq!(reason, "error");

    assert_eq!(event_loop_result(LoopOutcome::Returned(Ok(()))), Ok(()));
    let bug = JsonRpcError::Bug { message: "b".to_string() };
    assert_eq!(
        event_loop_result(LoopOutcome::Returned(Err(bug))),
        Err("BUG: b".to_string())
    );
    assert_eq!(
        event_loop_result(LoopOutcome::Panicked(PanicPayload::Literal("p"))),
        Err("p".to_string())
    );
}

#[test]
fn a_call_goes_there_and_back() {
    let mut caller = Connection::new();
    let mut other: ServiceConnection<()> = ServiceConnection::new();

    let (message, awaiting) = handle_outbound_message(method("a", "A"));
    let on_the_wire = message.to_json();
    assert!(caller.outbound_message_sent(awaiting, Ok(())).is_empty());

    let actions = other.handle_inbound_message("", Ok(on_the_wire)).unwrap();
    let spawn = actions.spawn.unwrap();
    other.operation_spawned(1, spawn.request_id);
    let answer = match plan(spawn.message) {
        Operation::Invoke(request) => {
            let outcome = HandlerOutcome::Response(ResponsePayload::success(text("result")));
            invocation_answer(invocation_response(request.id, outcome))
        }
        _ => panic!("not an invocation"),
    };
    let done = Completion::Finished { task_id: 1, response: answer };
    let answer = other.handle_pending_operation_completion(done).unwrap();

    let actions = receive(&mut caller, answer).unwrap();
    assert_eq!(answers(&actions), vec![("A", id("a"))]);
    assert!(matches!(
        &actions.answers[0].1.payload,
        ResponsePayload::Success(s) if s.result == text("result")
    ));
}

#[test]
fn those_who_wait_are_told_before_operations_end() {
    let mut connection = Connection::new();
    send(&mut connection, method("a", "A"), Ok(()));
    connection.operation_spawned(1, Some(Id::Number(1)));
    let (replies, phase): (Vec<Reply<&'static str, ()>>, ShutdownPhase) =
        begin_shutdown(&mut connection);
    assert_eq!(phase, ShutdownPhase::Waiting);
    assert!(matches!(
        &replies[..],
        [Reply::Response { tx: "A", result: Err(JsonRpcError::PendingRequestConnectionClosed) }]
    ));
    assert!(connection.is_task_pending(1));
    let done = Completion::Finished { task_id: 1, response: None };
    shutdown_step(&mut connection, phase, WaitOutcome::Completed(done));
    assert!(connection.is_idle());
    let left: Vec<Reply<&'static str, ()>> = connection.close();
    assert!(left.is_empty());
}

#[test]
fn only_a_call_under_an_id_in_use_is_refused() {
    let mut connection = Connection::new();
    let call = |n: u64| {
        AsyncInboundMessage::Request(Request::new(Id::Number(n), "add".to_string(), None))
    };
    let spawn = connection.handle_inbound_message_async(call(5)).unwrap();
    assert_eq!(spawn.request_id, Some(Id::Number(5)));
    connection.operation_spawned(1, spawn.request_id);

    let error = connection.handle_inbound_message_async(call(5)).err().unwrap();
    assert_eq!(error.code, ErrorCode::InvalidRequest);
    assert_eq!(error.message, "Duplicate request ID");
    assert!(connection.is_task_pending(1));

    let other = connection.handle_inbound_message_async(call(6)).unwrap();
    assert_eq!(other.request_id, Some(Id::Number(6)));
    let notification = Notification::new("n".to_string(), None);
    let spawn = connection
        .handle_inbound_message_async(AsyncInboundMessage::Notification(notification))
        .unwrap();
    assert_eq!(spawn.request_id, None);
}

#[test]
fn a_command_can_be_cloned() {
    let command = Command::CancelPendingInboundRequest { request_id: id("a") };
    assert!(matches!(
        command.clone(),
        Command::CancelPendingInboundRequest { request_id } if request_id == id("a")
    ));
}
