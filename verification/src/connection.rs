//! The state of one connection to a remote peer, and what the event loop that services it does on
//! each event.
//!
//! The event loop waits for something to happen, hands it to [`ServiceConnection`] and does what
//! comes back: it sends messages, starts operations and passes answers to those who wait for them.
//!
//! `T` is where the answer to a method call goes, and `C` is where word goes of whether something
//! was sent.
use crate::assoc_map::{lists, AssocMap};
use crate::error::{JsonRpcError, JsonRpcErrorView};
use crate::inbound::{
    sorted, AsyncInboundMessage, AsyncView, InboundMessage, InboundView, InlineInboundMessage,
    InlineView,
};
use crate::json::{Json, JsonValue};
use crate::types::{
    details, error_response, option_id, ErrorCode, ErrorDetails, ErrorDetailsView, Id, IdView,
    Message, MessageView, Notification, Request, RequestView, Response, ResponseView,
};
use crate::wire::{read_text, write_id};
use std::collections::HashMap;
use vstd::prelude::*;

verus! {

broadcast use vstd::std_specs::hash::group_hash_axioms;

/// An instruction to the event loop; it does not reach the remote peer.
#[derive(Debug)]
pub enum Command {
    /// No longer wait for the answer to a method call of ours.
    CancelPendingOutboundRequest { request_id: Id },
    /// Ask the handler of a method call of the remote peer to stop.
    CancelPendingInboundRequest { request_id: Id },
}

impl Clone for Command {
    fn clone(&self) -> (copy: Self)
        ensures
            copy == *self,
    {
        match self {
            Command::CancelPendingOutboundRequest { request_id } => {
                Command::CancelPendingOutboundRequest { request_id: request_id.clone() }
            },
            Command::CancelPendingInboundRequest { request_id } => {
                Command::CancelPendingInboundRequest { request_id: request_id.clone() }
            },
        }
    }
}

/// Something to be sent to the remote peer.
pub enum OutboundMessage<T, C> {
    /// A method call.
    Method { request: Request, response_tx: T },
    /// A notification.
    Notification { notification: Notification, send_confirmation_tx: C },
    /// Method calls and notifications in one batch.
    Batch { requests: Vec<(Request, T)>, notifications: Vec<Notification>, send_confirmation_tx: C },
}

/// Who waits for word of whether a message was sent, and for the answers to it.
pub enum AwaitingSend<T, C> {
    Method { id: Id, response_tx: T },
    Notification { send_confirmation_tx: C },
    Batch { response_txs: Vec<(Id, T)>, send_confirmation_tx: C },
}

/// Something to be passed to someone who waits for it.
#[allow(inconsistent_fields)]
pub enum Reply<T, C> {
    /// The answer to a method call, or why there is none.
    Response { tx: T, result: Result<Response, JsonRpcError> },
    /// Whether something was sent.
    Confirmation { tx: C, result: Result<(), JsonRpcError> },
}

/// What a [`Command`] leads to.
pub enum CommandAction<T> {
    /// There is nothing to cancel.
    Nothing,
    /// The one who waits for the answer learns that the call was cancelled.
    Answer { tx: T, error: JsonRpcError },
    /// The cancellation token of a running operation is signalled.
    Signal { task_id: u64 },
    /// The operation was asked to stop before.
    AlreadySignalled { task_id: u64 },
}

/// An operation to be started for what the remote peer sent.
#[derive(Debug)]
pub struct SpawnOperation {
    pub message: AsyncInboundMessage,
    /// The id of the method call, where the message is one.
    pub request_id: Option<Id>,
}

/// What a message of the remote peer leads to.
pub struct InboundActions<T> {
    /// Answers to calls of ours, each with where it goes.
    pub answers: Vec<(T, Response)>,
    /// What is left to be processed.
    pub spawn: Option<SpawnOperation>,
}

/// The end of an operation.
#[derive(Debug)]
pub enum Completion {
    /// It ran to its end and left this message to be sent, if any.
    Finished { task_id: u64, response: Option<Message> },
    /// It was aborted or it panicked.
    Failed { task_id: u64 },
}

/// A method call of the remote peer that is still being processed.
#[derive(Debug)]
pub struct PendingInboundMethodCall {
    pub request_id: Id,
    /// Its handler was asked to stop.
    pub cancelled: bool,
}

/// The view of a [`PendingInboundMethodCall`].
pub struct CallView {
    pub request_id: IdView,
    pub cancelled: bool,
}

impl View for PendingInboundMethodCall {
    type V = CallView;

    open spec fn view(&self) -> CallView {
        CallView { request_id: self.request_id@, cancelled: self.cancelled }
    }
}

/// What a connection keeps between events.
pub struct ServiceConnection<T> {
    pending_outbound_requests: AssocMap<Id, T>,
    pending_calls_by_task_id: HashMap<u64, PendingInboundMethodCall>,
    task_ids_by_request_id: AssocMap<Id, u64>,
}

/// The view of a [`ServiceConnection`].
#[verifier::ext_equal]
pub struct ConnectionView<T> {
    /// Calls of ours that were sent, by id: where the answer goes.
    pub outbound: Map<IdView, T>,
    /// Calls of the remote peer that are being processed, by the task that does so.
    pub calls: Map<u64, CallView>,
    /// The tasks that process calls of the remote peer, by the id of the call.
    pub tasks: Map<IdView, u64>,
}

impl<T> ConnectionView<T> {
    /// The two ways to look up a call of the remote peer agree.
    pub open spec fn agrees(self) -> bool {
        &&& forall|task: u64| #[trigger]
            self.calls.contains_key(task) ==> self.tasks.contains_key(self.calls[task].request_id)
                && self.tasks[self.calls[task].request_id] == task
        &&& forall|id: IdView| #[trigger]
            self.tasks.contains_key(id) ==> self.calls.contains_key(self.tasks[id])
                && self.calls[self.tasks[id]].request_id == id
    }
}

impl<T> View for ServiceConnection<T> {
    type V = ConnectionView<T>;

    closed spec fn view(&self) -> ConnectionView<T> {
        ConnectionView {
            outbound: self.pending_outbound_requests@,
            calls: self.pending_calls_by_task_id@.map_values(
                |call: PendingInboundMethodCall| call@,
            ),
            tasks: self.task_ids_by_request_id@,
        }
    }
}

/// What a command leads to, and the connection after it.
pub open spec fn commanded<T>(before: ConnectionView<T>, command: Command) -> (
    ConnectionView<T>,
    CommandAction<T>,
) {
    match command {
        Command::CancelPendingOutboundRequest { request_id } => if before.outbound.contains_key(
            request_id@,
        ) {
            (
                ConnectionView { outbound: before.outbound.remove(request_id@), ..before },
                CommandAction::Answer {
                    tx: before.outbound[request_id@],
                    error: JsonRpcError::Cancelled,
                },
            )
        } else {
            (before, CommandAction::Nothing)
        },
        Command::CancelPendingInboundRequest { request_id } => if before.tasks.contains_key(
            request_id@,
        ) {
            let task_id = before.tasks[request_id@];
            let call = before.calls[task_id];
            if call.cancelled {
                (before, CommandAction::AlreadySignalled { task_id })
            } else {
                (
                    ConnectionView {
                        calls: before.calls.insert(task_id, CallView { cancelled: true, ..call }),
                        ..before
                    },
                    CommandAction::Signal { task_id },
                )
            }
        } else {
            (before, CommandAction::Nothing)
        },
    }
}

impl<T> ServiceConnection<T> {
    /// The maps are well formed, and the two ways to look up a call agree.
    pub closed spec fn wf(&self) -> bool {
        &&& self.pending_outbound_requests.wf()
        &&& self.task_ids_by_request_id.wf()
        &&& self@.agrees()
    }

    /// Creates the state of a connection on which nothing happened yet.
    pub fn new() -> (connection: Self)
        ensures
            connection.wf(),
            connection@ == (ConnectionView::<T> {
                outbound: Map::empty(),
                calls: Map::empty(),
                tasks: Map::empty(),
            }),
    {
        let connection = ServiceConnection {
            pending_outbound_requests: AssocMap::new(),
            pending_calls_by_task_id: HashMap::new(),
            task_ids_by_request_id: AssocMap::new(),
        };
        assert(connection@.calls =~= Map::<u64, CallView>::empty());
        connection
    }

    /// Carries out a command.
    pub fn handle_command(&mut self, command: Command) -> (action: CommandAction<T>)
        requires
            old(self).wf(),
        ensures
            final(self).wf(),
            (final(self)@, action) == commanded(old(self)@, command),
    {
        match command {
            Command::CancelPendingOutboundRequest { request_id } => {
                match self.pending_outbound_requests.remove(&request_id) {
                    Some(tx) => CommandAction::Answer { tx, error: JsonRpcError::Cancelled },
                    None => {
                        assert(self@.outbound =~= old(self)@.outbound);
                        CommandAction::Nothing
                    },
                }
            },
            Command::CancelPendingInboundRequest { request_id } => {
                match self.task_ids_by_request_id.get(&request_id) {
                    Some(task_id) => {
                        let task_id: u64 = *task_id;
                        match self.pending_calls_by_task_id.remove(&task_id) {
                            Some(call) => {
                                let signal = !call.cancelled;
                                self.pending_calls_by_task_id.insert(
                                    task_id,
                                    PendingInboundMethodCall {
                                        request_id: call.request_id,
                                        cancelled: true,
                                    },
                                );
                                proof {
                                    let was = old(self)@.calls[task_id];
                                    assert(self@.calls =~= old(self)@.calls.insert(
                                        task_id,
                                        CallView { cancelled: true, ..was },
                                    ));
                                    if was.cancelled {
                                        assert(self@.calls =~= old(self)@.calls);
                                    }
                                }
                                if signal {
                                    CommandAction::Signal { task_id }
                                } else {
                                    CommandAction::AlreadySignalled { task_id }
                                }
                            },
                            None => {
                                assert(false);
                                CommandAction::Nothing
                            },
                        }
                    },
                    None => CommandAction::Nothing,
                }
            },
        }
    }
}

/// The messages of a batch: its method calls, then its notifications.
pub open spec fn batch_messages<T>(
    requests: Seq<(Request, T)>,
    notifications: Seq<Notification>,
) -> Seq<Message> {
    requests.map_values(|call: (Request, T)| Message::Request(call.0)) + notifications.map_values(
        |notification: Notification| Message::Notification(notification),
    )
}

/// Where the answers to the method calls of a batch go, by id.
pub open spec fn batch_txs<T>(requests: Seq<(Request, T)>) -> Seq<(Id, T)> {
    requests.map_values(|call: (Request, T)| (call.0.id, call.1))
}

/// `message` is what `outbound` sends, and `awaiting` is who waits for word of it.
pub open spec fn is_taken_apart<T, C>(
    outbound: OutboundMessage<T, C>,
    message: Message,
    awaiting: AwaitingSend<T, C>,
) -> bool {
    match outbound {
        OutboundMessage::Method { request, response_tx } => {
            &&& message == Message::Request(request)
            &&& awaiting == AwaitingSend::<T, C>::Method { id: request.id, response_tx }
        },
        OutboundMessage::Notification { notification, send_confirmation_tx } => {
            &&& message == Message::Notification(notification)
            &&& awaiting == AwaitingSend::<T, C>::Notification { send_confirmation_tx }
        },
        OutboundMessage::Batch { requests, notifications, send_confirmation_tx } => {
            &&& message matches Message::Batch(messages)
            &&& messages@ == batch_messages(requests@, notifications@)
            &&& awaiting matches AwaitingSend::Batch { response_txs, send_confirmation_tx: tx }
            &&& response_txs@ == batch_txs(requests@)
            &&& tx == send_confirmation_tx
        },
    }
}

/// Takes apart what is to be sent: the message, and who waits for word of it.
pub fn handle_outbound_message<T, C>(outbound: OutboundMessage<T, C>) -> (parts: (
    Message,
    AwaitingSend<T, C>,
))
    ensures
        is_taken_apart(outbound, parts.0, parts.1),
        match outbound {
            OutboundMessage::Method { request, .. } => parts.0 matches Message::Request(sent)
                && sent.id == request.id && sent.method == request.method && sent.params
                == request.params,
            OutboundMessage::Notification { notification, .. } => {
                &&& parts.0 matches Message::Notification(sent)
                &&& sent.method == notification.method
                &&& sent.params == notification.params
            },
            OutboundMessage::Batch { requests, notifications, .. } => {
                let calls = requests@.len();
                &&& parts.0 matches Message::Batch(items)
                &&& items@.len() == calls + notifications@.len()
                &&& forall|i: int|
                    0 <= i < calls ==> {
                        &&& #[trigger] items@[i] matches Message::Request(sent)
                        &&& sent.id == requests@[i].0.id
                        &&& sent.method == requests@[i].0.method
                        &&& sent.params == requests@[i].0.params
                    }
                &&& forall|j: int|
                    0 <= j < notifications@.len() ==> {
                        &&& #[trigger] items@[calls + j] matches Message::Notification(sent)
                        &&& sent.method == notifications@[j].method
                        &&& sent.params == notifications@[j].params
                    }
            },
        },
{
    match outbound {
        OutboundMessage::Method { request, response_tx } => {
            let id = request.id.clone();
            (Message::Request(request), AwaitingSend::Method { id, response_tx })
        },
        OutboundMessage::Notification { notification, send_confirmation_tx } => (
            Message::Notification(notification),
            AwaitingSend::Notification { send_confirmation_tx },
        ),
        OutboundMessage::Batch { requests, notifications, send_confirmation_tx } => {
            let mut messages: Vec<Message> = Vec::new();
            let mut response_txs: Vec<(Id, T)> = Vec::new();
            let ghost calls = requests@;
            let ghost raised = notifications@;
            for call in it: requests
                invariant
                    it.seq() == calls,
                    messages@ == calls.take(it.index()).map_values(
                        |call: (Request, T)| Message::Request(call.0),
                    ),
                    response_txs@ == batch_txs(calls.take(it.index())),
            {
                let (request, response_tx) = call;
                response_txs.push((request.id.clone(), response_tx));
                messages.push(Message::Request(request));
                proof {
                    assert(calls.take(it.index() + 1) =~= calls.take(it.index()).push(call));
                }
            }
            assert(calls.take(calls.len() as int) =~= calls);
            for notification in it: notifications
                invariant
                    it.seq() == raised,
                    messages@ == batch_messages(calls, raised.take(it.index())),
            {
                messages.push(Message::Notification(notification));
                proof {
                    assert(raised.take(it.index() + 1) =~= raised.take(it.index()).push(
                        notification,
                    ));
                }
            }
            assert(raised.take(raised.len() as int) =~= raised);
            (Message::Batch(messages), AwaitingSend::Batch { response_txs, send_confirmation_tx })
        },
    }
}

/// `outbound` with each of `txs` added in turn.
pub open spec fn with_all<T>(outbound: Map<IdView, T>, txs: Seq<(Id, T)>) -> Map<IdView, T>
    decreases txs.len(),
{
    if txs.len() == 0 {
        outbound
    } else {
        with_all(outbound, txs.drop_last()).insert(txs.last().0@, txs.last().1)
    }
}

/// The calls that wait for an answer once a message was sent or not.
pub open spec fn outbound_after_send<T, C>(
    outbound: Map<IdView, T>,
    awaiting: AwaitingSend<T, C>,
    sent: bool,
) -> Map<IdView, T> {
    if !sent {
        outbound
    } else {
        match awaiting {
            AwaitingSend::Method { id, response_tx } => outbound.insert(id@, response_tx),
            AwaitingSend::Notification { .. } => outbound,
            AwaitingSend::Batch { response_txs, .. } => with_all(outbound, response_txs@),
        }
    }
}

/// The word that each of `txs` gets of a batch that could not be sent.
pub open spec fn batch_failures<T, C>(txs: Seq<(Id, T)>) -> Seq<Reply<T, C>> {
    txs.map_values(
        |call: (Id, T)|
            Reply::Response { tx: call.1, result: Err(JsonRpcError::BatchSendFailed) },
    )
}

/// Who is told what once a message was sent or not.
///
/// A method call that was sent is answered later; the calls of a batch that could not be sent
/// learn that much, and the one who sent it learns why.
pub open spec fn replies_after_send<T, C>(
    awaiting: AwaitingSend<T, C>,
    result: Result<(), JsonRpcError>,
) -> Seq<Reply<T, C>> {
    match awaiting {
        AwaitingSend::Method { response_tx, .. } => match result {
            Ok(()) => Seq::empty(),
            Err(error) => seq![Reply::Response { tx: response_tx, result: Err(error) }],
        },
        AwaitingSend::Notification { send_confirmation_tx } => seq![
            Reply::Confirmation { tx: send_confirmation_tx, result },
        ],
        AwaitingSend::Batch { response_txs, send_confirmation_tx } => {
            let confirmation = Reply::Confirmation { tx: send_confirmation_tx, result };
            match result {
                Ok(()) => seq![confirmation],
                Err(_) => batch_failures(response_txs@).push(confirmation),
            }
        },
    }
}

impl<T> ServiceConnection<T> {
    /// Records that a message was sent or not, and tells those who wait for word of it.
    pub fn outbound_message_sent<C>(
        &mut self,
        awaiting: AwaitingSend<T, C>,
        result: Result<(), JsonRpcError>,
    ) -> (replies: Vec<Reply<T, C>>)
        requires
            old(self).wf(),
        ensures
            final(self).wf(),
            final(self)@ == (ConnectionView {
                outbound: outbound_after_send(old(self)@.outbound, awaiting, result is Ok),
                ..old(self)@
            }),
            replies@ == replies_after_send(awaiting, result),
    {
        let mut replies: Vec<Reply<T, C>> = Vec::new();
        match awaiting {
            AwaitingSend::Method { id, response_tx } => match result {
                Ok(()) => {
                    self.pending_outbound_requests.insert(id, response_tx);
                },
                Err(error) => {
                    replies.push(Reply::Response { tx: response_tx, result: Err(error) });
                },
            },
            AwaitingSend::Notification { send_confirmation_tx } => {
                replies.push(Reply::Confirmation { tx: send_confirmation_tx, result });
            },
            AwaitingSend::Batch { response_txs, send_confirmation_tx } => {
                let ghost txs = response_txs@;
                match result {
                    Ok(()) => {
                        let ghost before = *self;
                        for call in it: response_txs
                            invariant
                                it.seq() == txs,
                                self.wf(),
                                self@ == (ConnectionView {
                                    outbound: with_all(before@.outbound, txs.take(it.index())),
                                    ..before@
                                }),
                        {
                            let (id, response_tx) = call;
                            self.pending_outbound_requests.insert(id, response_tx);
                            proof {
                                assert(txs.take(it.index() + 1).drop_last() =~= txs.take(
                                    it.index(),
                                ));
                            }
                        }
                        assert(txs.take(txs.len() as int) =~= txs);
                    },
                    Err(_) => {
                        for call in it: response_txs
                            invariant
                                it.seq() == txs,
                                replies@ == batch_failures::<T, C>(txs.take(it.index())),
                        {
                            replies.push(
                                Reply::Response {
                                    tx: call.1,
                                    result: Err(JsonRpcError::BatchSendFailed),
                                },
                            );
                            proof {
                                assert(txs.take(it.index() + 1) =~= txs.take(it.index()).push(
                                    call,
                                ));
                            }
                        }
                        assert(txs.take(txs.len() as int) =~= txs);
                    },
                }
                replies.push(Reply::Confirmation { tx: send_confirmation_tx, result });
            },
        }
        replies
    }
}

/// The calls that still wait for an answer once `message` was processed.
pub open spec fn outbound_after<T>(outbound: Map<IdView, T>, message: InlineView) -> Map<IdView, T>
    decreases message,
{
    match message {
        InlineView::Response(response) => outbound.remove(response.id),
        InlineView::Batch(messages) => outbound_after_all(outbound, messages),
    }
}

/// The calls that still wait for an answer once all of `messages` were processed.
pub open spec fn outbound_after_all<T>(
    outbound: Map<IdView, T>,
    messages: Seq<InlineView>,
) -> Map<IdView, T>
    decreases messages,
{
    if messages.len() == 0 {
        outbound
    } else {
        outbound_after(outbound_after_all(outbound, messages.drop_last()), messages.last())
    }
}

/// The answers that `message` holds to calls that wait for one, each with where it goes.
pub open spec fn answers_in<T>(outbound: Map<IdView, T>, message: InlineView) -> Seq<
    (T, ResponseView),
>
    decreases message,
{
    match message {
        InlineView::Response(response) => if outbound.contains_key(response.id) {
            seq![(outbound[response.id], response)]
        } else {
            Seq::empty()
        },
        InlineView::Batch(messages) => answers_in_all(outbound, messages),
    }
}

/// The answers that `messages` hold to calls that wait for one, each with where it goes.
pub open spec fn answers_in_all<T>(outbound: Map<IdView, T>, messages: Seq<InlineView>) -> Seq<
    (T, ResponseView),
>
    decreases messages,
{
    if messages.len() == 0 {
        Seq::empty()
    } else {
        answers_in_all(outbound, messages.drop_last()) + answers_in(
            outbound_after_all(outbound, messages.drop_last()),
            messages.last(),
        )
    }
}

/// What answers stand for.
pub open spec fn answers_view<T>(answers: Seq<(T, Response)>) -> Seq<(T, ResponseView)> {
    answers.map_values(|answer: (T, Response)| (answer.0, answer.1@))
}

impl<T> ServiceConnection<T> {
    /// Passes each response in `message` to the one who waits for it; a response that nobody waits
    /// for is dropped.
    fn handle_inbound_message_inline(
        &mut self,
        message: InlineInboundMessage,
        answers: &mut Vec<(T, Response)>,
    )
        requires
            old(self).wf(),
        ensures
            final(self).wf(),
            final(self)@ == (ConnectionView {
                outbound: outbound_after(old(self)@.outbound, message@),
                ..old(self)@
            }),
            answers_view(final(answers)@) == answers_view(old(answers)@) + answers_in(
                old(self)@.outbound,
                message@,
            ),
        decreases message,
    {
        match message {
            InlineInboundMessage::Response(response) => {
                let ghost before = answers@;
                match self.pending_outbound_requests.remove(&response.id) {
                    Some(tx) => {
                        answers.push((tx, response));
                        assert(answers_view(answers@) =~= answers_view(before).push(
                            (tx, response@),
                        ));
                    },
                    None => {
                        assert(self@.outbound =~= old(self)@.outbound.remove(response.id@));
                        assert(answers_view(answers@) =~= answers_view(before)
                            + Seq::<(T, ResponseView)>::empty());
                    },
                }
            },
            InlineInboundMessage::Batch(messages) => {
                let ghost all = messages@;
                let ghost views = message@->Batch_0;
                let ghost before = *self;
                let ghost start = answers_view(answers@);
                assert(answers_view(answers@) =~= start + answers_in_all(
                    before@.outbound,
                    views.take(0),
                ));
                for inner in it: messages
                    invariant
                        it.seq() == all,
                        all == message->Batch_0@,
                        message is Batch,
                        views == message@->Batch_0,
                        self.wf(),
                        self@ == (ConnectionView {
                            outbound: outbound_after_all(before@.outbound, views.take(it.index())),
                            ..before@
                        }),
                        answers_view(answers@) == start + answers_in_all(
                            before@.outbound,
                            views.take(it.index()),
                        ),
                {
                    proof {
                        let done = views.take(it.index());
                        let more = views.take(it.index() + 1);
                        assert(more.drop_last() =~= done);
                        assert(more.last() == inner@);
                        assert(decreases_to!(message => message->Batch_0));
                        assert(decreases_to!(message->Batch_0 => message->Batch_0@));
                        assert(decreases_to!(message => message->Batch_0@[it.index()]));
                        assert(outbound_after_all(before@.outbound, more) == outbound_after(
                            outbound_after_all(before@.outbound, done),
                            inner@,
                        ));
                        assert(answers_in_all(before@.outbound, more) == answers_in_all(
                            before@.outbound,
                            done,
                        ) + answers_in(outbound_after_all(before@.outbound, done), inner@));
                    }
                    let ghost middle = answers_view(answers@);
                    self.handle_inbound_message_inline(inner, answers);
                    proof {
                        assert(answers_view(answers@) =~= start + answers_in_all(
                            before@.outbound,
                            views.take(it.index() + 1),
                        ));
                    }
                }
                assert(views.take(views.len() as int) =~= views);
            },
        }
    }
}

/// The error that answers a text that holds no message.
pub open spec fn parse_error() -> ErrorDetailsView {
    details(ErrorCode::ParseError, "Parse error"@, None)
}

/// The error that answers a method call under an id that is in use.
///
/// It goes out without an id of its own, since the id is that of another call.
pub open spec fn duplicate_error(request: RequestView) -> ErrorDetailsView {
    details(
        ErrorCode::InvalidRequest,
        "Duplicate request ID"@,
        Some(
            Json::Object(
                seq![
                    ("duplicated_request_id"@, write_id(request.id)),
                    ("method"@, Json::String(request.method)),
                ],
            ),
        ),
    )
}

/// The error that answers a message at once, if it is a method call under an id that is in use.
pub open spec fn refusal(tasks: Map<IdView, u64>, message: AsyncView) -> Option<ErrorDetailsView> {
    match message {
        AsyncView::Request(request) => if tasks.contains_key(request.id) {
            Some(duplicate_error(request))
        } else {
            None
        },
        _ => None,
    }
}

/// The id of a method call, where the message is one.
pub open spec fn call_id(message: AsyncView) -> Option<IdView> {
    match message {
        AsyncView::Request(request) => Some(request.id),
        _ => None,
    }
}

/// What is processed at once, and what is left to be processed.
pub open spec fn parts(inbound: InboundView) -> (Option<InlineView>, Option<AsyncView>) {
    match inbound {
        InboundView::Inline(inline) => (Some(inline), None),
        InboundView::Async(rest) => (None, Some(rest)),
        InboundView::Hybrid(inline, rest) => (Some(inline), Some(rest)),
    }
}

/// What a text from the remote peer leads to.
pub enum ReceivedView<T> {
    /// It is answered with an error at once.
    Refused(ErrorDetailsView),
    /// These answers are passed on, and an operation is started for the rest.
    Accepted {
        outbound: Map<IdView, T>,
        answers: Seq<(T, ResponseView)>,
        rest: Option<AsyncView>,
    },
}

/// What `message` leads to.
pub open spec fn received<T>(before: ConnectionView<T>, message: MessageView) -> ReceivedView<T> {
    match sorted(message) {
        Err(error) => ReceivedView::Refused(error),
        Ok(inbound) => {
            let (inline, rest) = parts(inbound);
            match rest {
                Some(rest) if refusal(before.tasks, rest) is Some => ReceivedView::Refused(
                    refusal(before.tasks, rest)->Some_0,
                ),
                _ => match inline {
                    Some(inline) => ReceivedView::Accepted {
                        outbound: outbound_after(before.outbound, inline),
                        answers: answers_in(before.outbound, inline),
                        rest,
                    },
                    None => ReceivedView::Accepted {
                        outbound: before.outbound,
                        answers: Seq::empty(),
                        rest,
                    },
                },
            }
        },
    }
}

/// What a text leads to that reads as `read`.
pub open spec fn received_text<T>(
    before: ConnectionView<T>,
    read: Result<MessageView, JsonRpcErrorView>,
) -> ReceivedView<T> {
    match read {
        Ok(message) => received(before, message),
        Err(_) => ReceivedView::Refused(parse_error()),
    }
}

/// What the JSON in a text stands for.
pub open spec fn json_result(json: Result<JsonValue, String>) -> Result<Json, Seq<char>> {
    match json {
        Ok(json) => Ok(json@),
        Err(source) => Err(source@),
    }
}

impl<T> ServiceConnection<T> {
    /// Makes ready an operation for `message`, unless it is a method call under an id that is in
    /// use.
    pub fn handle_inbound_message_async(&self, message: AsyncInboundMessage) -> (result: Result<
        SpawnOperation,
        ErrorDetails,
    >)
        requires
            self.wf(),
        ensures
            match result {
                Ok(spawn) => refusal(self@.tasks, message@) is None && spawn.message == message
                    && option_id(spawn.request_id) == call_id(message@),
                Err(error) => refusal(self@.tasks, message@) == Some(error@),
            },
    {
        let request_id = match &message {
            AsyncInboundMessage::Request(request) => {
                if self.task_ids_by_request_id.contains_key(&request.id) {
                    let data = JsonValue::object_of_two(
                        "duplicated_request_id",
                        request.id.to_json(),
                        "method",
                        JsonValue::String(request.method.clone()),
                    );
                    return Err(
                        ErrorDetails::invalid_request(
                            "Duplicate request ID".to_string(),
                            Some(data),
                        ),
                    );
                }
                Some(request.id.clone())
            },
            _ => None,
        };
        Ok(SpawnOperation { message, request_id })
    }

    /// Takes in a text that the remote peer sent, given the JSON that it holds or why it holds
    /// none.
    ///
    /// Responses are passed on at once; an operation is started for everything else. A text that
    /// is no message, an empty batch, and a method call under an id that is in use are answered
    /// with the error that is returned.
    pub fn handle_inbound_message(&mut self, text: &str, json: Result<JsonValue, String>) -> (result:
        Result<InboundActions<T>, ErrorDetails>)
        requires
            old(self).wf(),
        ensures
            final(self).wf(),
            match received_text(old(self)@, read_text(text@, json_result(json))) {
                ReceivedView::Refused(error) => {
                    &&& final(self)@ == old(self)@
                    &&& result matches Err(details)
                    &&& details@ == error
                },
                ReceivedView::Accepted { outbound, answers, rest } => {
                    &&& final(self)@ == (ConnectionView { outbound, ..old(self)@ })
                    &&& result matches Ok(actions)
                    &&& answers_view(actions.answers@) == answers
                    &&& match (actions.spawn, rest) {
                        (Some(spawn), Some(rest)) => spawn.message@ == rest && option_id(
                            spawn.request_id,
                        ) == call_id(rest),
                        (None, None) => true,
                        _ => false,
                    }
                },
            },
    {
        let message = match Message::from_str(text, json) {
            Ok(message) => message,
            Err(_) => {
                return Err(
                    ErrorDetails::new(ErrorCode::ParseError, "Parse error".to_string(), None),
                );
            },
        };
        let inbound = match InboundMessage::try_from(message) {
            Ok(inbound) => inbound,
            Err(error) => {
                return Err(error);
            },
        };
        let mut answers: Vec<(T, Response)> = Vec::new();
        assert(answers_view(answers@) =~= Seq::<(T, ResponseView)>::empty());
        match inbound {
            InboundMessage::Inline(inline) => {
                self.handle_inbound_message_inline(inline, &mut answers);
                assert(answers_view(answers@) =~= answers_in(old(self)@.outbound, inline@));
                Ok(InboundActions { answers, spawn: None })
            },
            InboundMessage::Async(rest) => match self.handle_inbound_message_async(rest) {
                Ok(spawn) => Ok(InboundActions { answers, spawn: Some(spawn) }),
                Err(error) => Err(error),
            },
            InboundMessage::Hybrid(inline, rest) => {
                self.handle_inbound_message_inline(inline, &mut answers);
                assert(answers_view(answers@) =~= answers_in(old(self)@.outbound, inline@));
                match self.handle_inbound_message_async(rest) {
                    Ok(spawn) => Ok(InboundActions { answers, spawn: Some(spawn) }),
                    Err(error) => {
                        assert(rest@ is Batch);
                        Err(error)
                    },
                }
            },
        }
    }
}

/// The connection once a task was started for a message.
pub open spec fn spawned<T>(
    before: ConnectionView<T>,
    task_id: u64,
    request_id: Option<IdView>,
) -> ConnectionView<T> {
    match request_id {
        Some(request_id) => ConnectionView {
            calls: before.calls.insert(task_id, CallView { request_id, cancelled: false }),
            tasks: before.tasks.insert(request_id, task_id),
            ..before
        },
        None => before,
    }
}

/// The connection once a task ended.
pub open spec fn completed<T>(before: ConnectionView<T>, task_id: u64) -> ConnectionView<T> {
    if before.calls.contains_key(task_id) {
        ConnectionView {
            calls: before.calls.remove(task_id),
            tasks: before.tasks.remove(before.calls[task_id].request_id),
            ..before
        }
    } else {
        before
    }
}

/// The end of a task keeps the two ways to look up a call in agreement.
pub proof fn lemma_completed_agrees<T>(before: ConnectionView<T>, task_id: u64)
    requires
        before.agrees(),
    ensures
        completed(before, task_id).agrees(),
{
    if before.calls.contains_key(task_id) {
        let gone = before.calls[task_id].request_id;
        let after = completed(before, task_id);
        assert forall|task: u64| #[trigger] after.calls.contains_key(task) implies
            after.tasks.contains_key(after.calls[task].request_id)
            && after.tasks[after.calls[task].request_id] == task by {
            assert(before.calls.contains_key(task));
            assert(before.calls[task].request_id != gone);
        }
        assert forall|id: IdView| #[trigger] after.tasks.contains_key(id) implies
            after.calls.contains_key(after.tasks[id])
            && after.calls[after.tasks[id]].request_id == id by {
            assert(before.tasks.contains_key(id));
            assert(before.tasks[id] != task_id);
        }
    }
}

/// The answer to a method call of which the operation did not run to its end.
pub open spec fn failure_response(request_id: IdView) -> MessageView {
    MessageView::Response(
        error_response(
            request_id,
            details(ErrorCode::InternalError, "Task was cancelled or panicked"@, None),
        ),
    )
}

impl<T> ServiceConnection<T> {
    /// Tells whether a method call of the remote peer is processed by the task.
    pub fn is_task_pending(&self, task_id: u64) -> (pending: bool)
        ensures
            pending == self@.calls.contains_key(task_id),
    {
        self.pending_calls_by_task_id.contains_key(&task_id)
    }

    /// Records the task that was started for a message, where the message is a method call.
    ///
    /// No other task that is pending has this number, and no other call this id.
    pub fn operation_spawned(&mut self, task_id: u64, request_id: Option<Id>)
        requires
            old(self).wf(),
            !old(self)@.calls.contains_key(task_id),
            request_id matches Some(id) ==> !old(self)@.tasks.contains_key(id@),
        ensures
            final(self).wf(),
            final(self)@ == spawned(old(self)@, task_id, option_id(request_id)),
    {
        match request_id {
            Some(request_id) => {
                self.task_ids_by_request_id.insert(request_id.clone(), task_id);
                self.pending_calls_by_task_id.insert(
                    task_id,
                    PendingInboundMethodCall { request_id, cancelled: false },
                );
                assert(self@.calls =~= old(self)@.calls.insert(
                    task_id,
                    CallView { request_id: request_id@, cancelled: false },
                ));
            },
            None => {},
        }
    }

    /// Forgets a task, and returns the id of the method call that it processed, if any.
    fn forget_task(&mut self, task_id: u64) -> (request_id: Option<Id>)
        requires
            old(self).wf(),
        ensures
            final(self).wf(),
            final(self)@ == completed(old(self)@, task_id),
            match request_id {
                Some(request_id) => old(self)@.calls.contains_key(task_id) && request_id@
                    == old(self)@.calls[task_id].request_id,
                None => !old(self)@.calls.contains_key(task_id),
            },
    {
        match self.pending_calls_by_task_id.remove(&task_id) {
            Some(call) => {
                self.task_ids_by_request_id.remove(&call.request_id);
                proof {
                    assert(self@.calls =~= old(self)@.calls.remove(task_id));
                    lemma_completed_agrees(old(self)@, task_id);
                }
                Some(call.request_id)
            },
            None => {
                assert(self@.calls =~= old(self)@.calls);
                None
            },
        }
    }

    /// Records the end of a task, and returns the message to be sent, if any.
    ///
    /// A method call gets an answer even where its task was aborted or panicked.
    pub fn handle_pending_operation_completion(&mut self, completion: Completion) -> (answer:
        Option<Message>)
        requires
            old(self).wf(),
        ensures
            final(self).wf(),
            match completion {
                Completion::Finished { task_id, response } => {
                    &&& final(self)@ == completed(old(self)@, task_id)
                    &&& answer == response
                },
                Completion::Failed { task_id } => {
                    &&& final(self)@ == completed(old(self)@, task_id)
                    &&& match answer {
                        Some(message) => old(self)@.calls.contains_key(task_id) && message@
                            == failure_response(old(self)@.calls[task_id].request_id),
                        None => !old(self)@.calls.contains_key(task_id),
                    }
                },
            },
    {
        match completion {
            Completion::Finished { task_id, response } => {
                self.forget_task(task_id);
                response
            },
            Completion::Failed { task_id } => match self.forget_task(task_id) {
                Some(request_id) => Some(
                    Message::Response(
                        Response::error(
                            request_id,
                            ErrorCode::InternalError,
                            "Task was cancelled or panicked".to_string(),
                            None,
                        ),
                    ),
                ),
                None => None,
            },
        }
    }
}

/// Something that the event loop waits for.
pub enum Event<T, C> {
    /// A command came, or none will come any more.
    Command(Option<Command>),
    /// There is something to be sent, or there never will be any more.
    Outbound(Option<OutboundMessage<T, C>>),
    /// The remote peer sent a text, which holds JSON or not; or it closed the connection; or the
    /// transport failed.
    Received(Result<Option<(String, Result<JsonValue, String>)>, JsonRpcError>),
    /// An operation ended.
    OperationCompleted(Completion),
    /// The custom event loop ran once, or failed for the reason given.
    CustomEventLoop(Result<(), String>),
    /// The connection is to be shut down.
    CancellationRequested,
}

/// What the event loop does next.
pub enum Step<T, C> {
    /// It waits for the next event.
    Wait,
    /// It does what came of a command.
    Command(CommandAction<T>),
    /// It sends a message, and reports whether that worked.
    Send { message: Message, awaiting: AwaitingSend<T, C> },
    /// It sends a message; whether that works makes no difference.
    Answer(Message),
    /// It does what came of a text from the remote peer.
    Inbound(InboundActions<T>),
    /// It stops, and shuts the connection down.
    Stop(Result<(), JsonRpcError>),
}

/// The reason to stop that is a defect of the program.
pub open spec fn is_bug(result: Result<(), JsonRpcError>, message: Seq<char>) -> bool {
    result matches Err(error) && error@ == (JsonRpcErrorView::Bug { message })
}

/// The step that follows a text of the remote peer that reads as `read`.
pub open spec fn is_step_for_text<T, C>(
    before: ConnectionView<T>,
    read: Result<MessageView, JsonRpcErrorView>,
    after: ConnectionView<T>,
    step: Step<T, C>,
) -> bool {
    match received_text(before, read) {
        ReceivedView::Refused(error) => {
            &&& after == before
            &&& step matches Step::Answer(message)
            &&& message@ == MessageView::Response(error_response(IdView::Null, error))
        },
        ReceivedView::Accepted { outbound, answers, rest } => {
            &&& after == (ConnectionView { outbound, ..before })
            &&& step matches Step::Inbound(actions)
            &&& answers_view(actions.answers@) == answers
            &&& match (actions.spawn, rest) {
                (Some(spawn), Some(rest)) => spawn.message@ == rest && option_id(spawn.request_id)
                    == call_id(rest),
                (None, None) => true,
                _ => false,
            }
        },
    }
}

/// The step that follows the end of an operation.
pub open spec fn is_step_for_completion<T, C>(
    before: ConnectionView<T>,
    completion: Completion,
    after: ConnectionView<T>,
    step: Step<T, C>,
) -> bool {
    match completion {
        Completion::Finished { task_id, response } => {
            &&& after == completed(before, task_id)
            &&& step == match response {
                Some(message) => Step::<T, C>::Answer(message),
                None => Step::<T, C>::Wait,
            }
        },
        Completion::Failed { task_id } => {
            &&& after == completed(before, task_id)
            &&& if before.calls.contains_key(task_id) {
                step matches Step::Answer(message) && message@ == failure_response(
                    before.calls[task_id].request_id,
                )
            } else {
                step is Wait
            }
        },
    }
}

/// The step that follows an event.
pub open spec fn is_step<T, C>(
    before: ConnectionView<T>,
    event: Event<T, C>,
    after: ConnectionView<T>,
    step: Step<T, C>,
) -> bool {
    match event {
        Event::Command(Some(command)) => step matches Step::Command(action) && (after, action)
            == commanded(before, command),
        Event::Command(None) => {
            &&& after == before
            &&& step matches Step::Stop(result)
            &&& is_bug(result, "Handle closed connection to command channel"@)
        },
        Event::Outbound(Some(outbound)) => {
            &&& after == before
            &&& step matches Step::Send { message, awaiting }
            &&& is_taken_apart(outbound, message, awaiting)
        },
        Event::Outbound(None) => {
            &&& after == before
            &&& step matches Step::Stop(result)
            &&& is_bug(result, "Handle closed connection to outbound messages channel"@)
        },
        Event::Received(Ok(Some((text, json)))) => is_step_for_text(
            before,
            read_text(text@, json_result(json)),
            after,
            step,
        ),
        Event::Received(Ok(None)) => after == before && step == Step::<T, C>::Stop(Ok(())),
        Event::Received(Err(error)) => after == before && step == Step::<T, C>::Stop(Err(error)),
        Event::OperationCompleted(completion) => is_step_for_completion(
            before,
            completion,
            after,
            step,
        ),
        Event::CustomEventLoop(Ok(())) => after == before && step == Step::<T, C>::Wait,
        Event::CustomEventLoop(Err(source)) => after == before && step == Step::<T, C>::Stop(
            Err(JsonRpcError::CustomEventLoopError { source }),
        ),
        Event::CancellationRequested => after == before && step == Step::<T, C>::Stop(
            Err(JsonRpcError::Cancelled),
        ),
    }
}

impl<T> ServiceConnection<T> {
    /// Takes in an event, and returns what the event loop does next.
    pub fn handle_event<C>(&mut self, event: Event<T, C>) -> (step: Step<T, C>)
        requires
            old(self).wf(),
        ensures
            final(self).wf(),
            is_step(old(self)@, event, final(self)@, step),
    {
        match event {
            Event::Command(Some(command)) => Step::Command(self.handle_command(command)),
            Event::Command(None) => Step::Stop(
                Err(
                    JsonRpcError::Bug {
                        message: "Handle closed connection to command channel".to_string(),
                    },
                ),
            ),
            Event::Outbound(Some(outbound)) => {
                let (message, awaiting) = handle_outbound_message(outbound);
                Step::Send { message, awaiting }
            },
            Event::Outbound(None) => Step::Stop(
                Err(
                    JsonRpcError::Bug {
                        message:
                            "Handle closed connection to outbound messages channel".to_string(),
                    },
                ),
            ),
            Event::Received(Ok(Some((text, json)))) => {
                match self.handle_inbound_message(text.as_str(), json) {
                    Ok(actions) => Step::Inbound(actions),
                    Err(error) => Step::Answer(
                        Message::Response(Response::error_detail(Id::Null, error)),
                    ),
                }
            },
            Event::Received(Ok(None)) => Step::Stop(Ok(())),
            Event::Received(Err(error)) => Step::Stop(Err(error)),
            Event::OperationCompleted(completion) => {
                match self.handle_pending_operation_completion(completion) {
                    Some(message) => Step::Answer(message),
                    None => Step::Wait,
                }
            },
            Event::CustomEventLoop(Ok(())) => Step::Wait,
            Event::CustomEventLoop(Err(source)) => Step::Stop(
                Err(JsonRpcError::CustomEventLoopError { source }),
            ),
            Event::CancellationRequested => Step::Stop(Err(JsonRpcError::Cancelled)),
        }
    }
}

/// The word that each of `entries` gets when the connection closes.
pub open spec fn closing_replies<T, C>(entries: Seq<(Id, T)>) -> Seq<Reply<T, C>> {
    entries.map_values(
        |entry: (Id, T)|
            Reply::Response {
                tx: entry.1,
                result: Err(JsonRpcError::PendingRequestConnectionClosed),
            },
    )
}

impl<T> ServiceConnection<T> {
    /// Tells everyone who waits for an answer of the remote peer that none will come.
    pub fn close<C>(&mut self) -> (replies: Vec<Reply<T, C>>)
        requires
            old(self).wf(),
        ensures
            final(self).wf(),
            final(self)@ == (ConnectionView { outbound: Map::empty(), ..old(self)@ }),
            exists|entries: Seq<(Id, T)>| #[trigger]
                lists(entries, old(self)@.outbound) && replies@ == closing_replies::<T, C>(entries),
    {
        let drained = self.pending_outbound_requests.drain();
        let ghost entries = drained@;
        let mut replies: Vec<Reply<T, C>> = Vec::new();
        for entry in it: drained
            invariant
                it.seq() == entries,
                replies@ == closing_replies::<T, C>(entries.take(it.index())),
        {
            replies.push(
                Reply::Response {
                    tx: entry.1,
                    result: Err(JsonRpcError::PendingRequestConnectionClosed),
                },
            );
            assert(entries.take(it.index() + 1) =~= entries.take(it.index()).push(entry));
        }
        assert(entries.take(entries.len() as int) =~= entries);
        assert(lists(entries, old(self)@.outbound));
        replies
    }

    /// Tells whether no method call of the remote peer is being processed.
    pub fn is_idle(&self) -> (idle: bool)
        requires
            self.wf(),
        ensures
            idle == (self@.calls == Map::<u64, CallView>::empty()),
            idle == (self@.tasks == Map::<IdView, u64>::empty()),
    {
        let idle = self.task_ids_by_request_id.is_empty();
        proof {
            let view = self@;
            if idle {
                assert forall|task: u64| !view.calls.contains_key(task) by {
                    if view.calls.contains_key(task) {
                        assert(view.tasks.contains_key(view.calls[task].request_id));
                    }
                }
                assert(view.calls =~= Map::<u64, CallView>::empty());
            } else {
                assert(exists|id: IdView| view.tasks.contains_key(id)) by {
                    if forall|id: IdView| !view.tasks.contains_key(id) {
                        assert(view.tasks =~= Map::<IdView, u64>::empty());
                    }
                }
                let id = choose|id: IdView| view.tasks.contains_key(id);
                assert(view.calls.contains_key(view.tasks[id]));
            }
        }
        idle
    }
}

} // verus!
