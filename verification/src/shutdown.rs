//! The start and the end of the event loop that services a connection.
use crate::assoc_map::lists;
use crate::connection::{
    closing_replies, completed, failure_response, Completion, ConnectionView, OutboundMessage,
    Reply, ServiceConnection,
};
use crate::error::{
    panic_err_to_string, panic_text, JsonRpcError, JsonRpcErrorView, PanicPayload,
};
use crate::types::{Id, Message, Request};
use vstd::prelude::*;

verus! {

/// How many messages may be queued for a connection before whoever wants to queue another one has
/// to wait.
pub const CONNECTION_CHANNEL_BOUNDS: usize = 16;

/// Starts to service a connection, unless it is to be shut down already.
pub fn service_connection<T>(cancelled: bool) -> (result: Result<
    ServiceConnection<T>,
    JsonRpcError,
>)
    ensures
        match result {
            Ok(connection) => !cancelled && connection.wf() && connection@ == (ConnectionView::<T> {
                outbound: Map::empty(),
                calls: Map::empty(),
                tasks: Map::empty(),
            }),
            Err(error) => cancelled && error == JsonRpcError::Cancelled,
        },
{
    if cancelled {
        Err(JsonRpcError::Cancelled)
    } else {
        Ok(ServiceConnection::new())
    }
}

/// Reports whether the event loop was there to be given the handle to itself.
pub fn event_loop_started(handle_taken: bool) -> (result: Result<(), JsonRpcError>)
    ensures
        match result {
            Ok(()) => handle_taken,
            Err(error) => !handle_taken && error@ == (JsonRpcErrorView::Bug {
                message:
                    "oneshot channel dropped immediately after spawning connection event loop"@,
            }),
        },
{
    if handle_taken {
        Ok(())
    } else {
        Err(
            JsonRpcError::Bug {
                message:
                    "oneshot channel dropped immediately after spawning connection event loop".to_string(),
            },
        )
    }
}

/// The word that those who wait get of something that is not sent because the connection closes.
pub open spec fn refusals<T, C>(outbound: OutboundMessage<T, C>) -> Seq<Reply<T, C>> {
    let closed = JsonRpcError::PendingRequestConnectionClosed;
    match outbound {
        OutboundMessage::Method { response_tx, .. } => seq![
            Reply::Response { tx: response_tx, result: Err(closed) },
        ],
        OutboundMessage::Notification { send_confirmation_tx, .. } => seq![
            Reply::Confirmation { tx: send_confirmation_tx, result: Err(closed) },
        ],
        OutboundMessage::Batch { requests, send_confirmation_tx, .. } => requests@.map_values(
            |call: (Request, T)| Reply::<T, C>::Response { tx: call.1, result: Err(closed) },
        ).push(Reply::Confirmation { tx: send_confirmation_tx, result: Err(closed) }),
    }
}

/// Tells those who wait for word of `outbound` that the connection is closed.
pub fn refuse_outbound_message<T, C>(outbound: OutboundMessage<T, C>) -> (replies: Vec<Reply<T, C>>)
    ensures
        replies@ == refusals(outbound),
{
    let mut replies: Vec<Reply<T, C>> = Vec::new();
    match outbound {
        OutboundMessage::Method { response_tx, .. } => {
            replies.push(
                Reply::Response {
                    tx: response_tx,
                    result: Err(JsonRpcError::PendingRequestConnectionClosed),
                },
            );
        },
        OutboundMessage::Notification { send_confirmation_tx, .. } => {
            replies.push(
                Reply::Confirmation {
                    tx: send_confirmation_tx,
                    result: Err(JsonRpcError::PendingRequestConnectionClosed),
                },
            );
        },
        OutboundMessage::Batch { requests, send_confirmation_tx, .. } => {
            let ghost calls = requests@;
            let ghost refusal = |call: (Request, T)|
                Reply::<T, C>::Response {
                    tx: call.1,
                    result: Err(JsonRpcError::PendingRequestConnectionClosed),
                };
            for call in it: requests
                invariant
                    it.seq() == calls,
                    refusal == (|call: (Request, T)|
                        Reply::<T, C>::Response {
                            tx: call.1,
                            result: Err(JsonRpcError::PendingRequestConnectionClosed),
                        }),
                    replies@ == calls.take(it.index()).map_values(refusal),
            {
                replies.push(
                    Reply::Response {
                        tx: call.1,
                        result: Err(JsonRpcError::PendingRequestConnectionClosed),
                    },
                );
                assert(calls.take(it.index() + 1) =~= calls.take(it.index()).push(call));
            }
            assert(calls.take(calls.len() as int) =~= calls);
            replies.push(
                Reply::Confirmation {
                    tx: send_confirmation_tx,
                    result: Err(JsonRpcError::PendingRequestConnectionClosed),
                },
            );
        },
    }
    replies
}

/// How far the shutdown of a connection has come.
#[derive(Clone, Copy, Debug, PartialEq, Eq, Structural)]
pub enum ShutdownPhase {
    /// Operations that are running may still come to their end.
    Waiting,
    /// They were aborted.
    Aborting,
}

/// What came of waiting for an operation to end.
#[derive(Debug)]
pub enum WaitOutcome {
    /// One ended.
    Completed(Completion),
    /// None is left.
    Drained,
    /// There is no time left to wait.
    TimedOut,
}

/// What the event loop does next while it shuts down.
#[derive(Debug)]
pub enum ShutdownStep {
    /// It sends this message, if any, and waits for the next operation to end.
    Continue { answer: Option<Message> },
    /// It aborts all operations, and then waits for them to end, however long that takes.
    AbortAll,
    /// It ends.
    Done,
}

/// Begins to shut a connection down, before any waiting: tells everyone who waits for an answer of
/// the remote peer that none will come, and returns the phase that the shutdown is then in.
pub fn begin_shutdown<T, C>(connection: &mut ServiceConnection<T>) -> (begun: (
    Vec<Reply<T, C>>,
    ShutdownPhase,
))
    requires
        old(connection).wf(),
    ensures
        final(connection).wf(),
        final(connection)@ == (ConnectionView { outbound: Map::empty(), ..old(connection)@ }),
        exists|entries: Seq<(Id, T)>| #[trigger]
            lists(entries, old(connection)@.outbound) && begun.0@ == closing_replies::<T, C>(
                entries,
            ),
        begun.1 == ShutdownPhase::Waiting,
{
    (connection.close(), ShutdownPhase::Waiting)
}

/// Takes in what came of waiting for an operation to end, and returns what the event loop does
/// next.
pub fn shutdown_step<T>(
    connection: &mut ServiceConnection<T>,
    phase: ShutdownPhase,
    outcome: WaitOutcome,
) -> (step: ShutdownStep)
    requires
        old(connection).wf(),
    ensures
        final(connection).wf(),
        match outcome {
            WaitOutcome::Completed(completion) => {
                &&& step matches ShutdownStep::Continue { answer }
                &&& match completion {
                    Completion::Finished { task_id, response } => {
                        &&& final(connection)@ == completed(old(connection)@, task_id)
                        &&& answer == response
                    },
                    Completion::Failed { task_id } => {
                        &&& final(connection)@ == completed(old(connection)@, task_id)
                        &&& match answer {
                            Some(message) => old(connection)@.calls.contains_key(task_id)
                                && message@ == failure_response(
                                old(connection)@.calls[task_id].request_id,
                            ),
                            None => !old(connection)@.calls.contains_key(task_id),
                        }
                    },
                }
            },
            WaitOutcome::Drained => {
                &&& step == ShutdownStep::Done
                &&& final(connection)@ == old(connection)@
            },
            WaitOutcome::TimedOut => {
                &&& step == match phase {
                    ShutdownPhase::Waiting => ShutdownStep::AbortAll,
                    ShutdownPhase::Aborting => ShutdownStep::Continue { answer: None },
                }
                &&& final(connection)@ == old(connection)@
            },
        },
{
    match outcome {
        WaitOutcome::Completed(completion) => {
            let answer = connection.handle_pending_operation_completion(completion);
            ShutdownStep::Continue { answer }
        },
        WaitOutcome::Drained => ShutdownStep::Done,
        WaitOutcome::TimedOut => match phase {
            ShutdownPhase::Waiting => ShutdownStep::AbortAll,
            ShutdownPhase::Aborting => ShutdownStep::Continue { answer: None },
        },
    }
}

/// What the event loop reports once it has shut down, and in a word why it did.
///
/// That someone asked for it is no error.
pub fn termination(result: Result<(), JsonRpcError>) -> (report: (
    Result<(), JsonRpcError>,
    &'static str,
))
    ensures
        match result {
            Ok(()) => report.0 == Ok::<(), JsonRpcError>(()) && report.1@
                == "remote_peer_closed_connection"@,
            Err(JsonRpcError::Cancelled) => report.0 == Ok::<(), JsonRpcError>(()) && report.1@
                == "cancelled_token_triggered"@,
            Err(error) => report.0 == Err::<(), JsonRpcError>(error) && report.1@ == "error"@,
        },
{
    match result {
        Ok(()) => (Ok(()), "remote_peer_closed_connection"),
        Err(JsonRpcError::Cancelled) => (Ok(()), "cancelled_token_triggered"),
        Err(error) => (Err(error), "error"),
    }
}

/// How the event loop ended.
#[derive(Debug)]
pub enum LoopOutcome {
    /// It returned this result.
    Returned(Result<(), JsonRpcError>),
    /// It panicked.
    Panicked(PanicPayload),
}

/// Tells everyone who holds a handle to the connection how its event loop ended.
pub fn event_loop_result(outcome: LoopOutcome) -> (result: Result<(), String>)
    ensures
        match outcome {
            LoopOutcome::Returned(Ok(())) => result is Ok,
            LoopOutcome::Returned(Err(error)) => result matches Err(text) && text@ == error@.text(),
            LoopOutcome::Panicked(payload) => result matches Err(text) && text@ == panic_text(
                payload,
            ),
        },
{
    match outcome {
        LoopOutcome::Returned(Ok(())) => Ok(()),
        LoopOutcome::Returned(Err(error)) => Err(error.to_text()),
        LoopOutcome::Panicked(payload) => Err(panic_err_to_string(payload)),
    }
}

} // verus!
