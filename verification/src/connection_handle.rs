//! Calls to the remote peer: what is sent for them, and what comes of them.
//!
//! `T` is where the answer to a method call goes, and `C` is where word goes of whether something
//! was sent.
use crate::connection::{Command, OutboundMessage, Reply};
use crate::error::{JsonRpcError, JsonRpcErrorView};
use crate::json::{option_json, Json, JsonValue};
use crate::shutdown::refusals;
use crate::types::{
    Id, IdView, Notification, NotificationView, Request, RequestView, Response, ResponsePayload,
    ResponsePayloadView,
};
use std::marker::PhantomData;
use vstd::prelude::*;

verus! {

/// `c` is a hexadecimal digit in lower case.
pub open spec fn is_hex_digit(c: char) -> bool {
    '0' <= c <= '9' || 'a' <= c <= 'f'
}

/// `text` is a version 7 UUID in groups of 8, 4, 4, 4 and 12 digits.
pub open spec fn is_uuid_v7(text: Seq<char>) -> bool {
    &&& text.len() == 36
    &&& forall|i: int|
        0 <= i < 36 ==> if i == 8 || i == 13 || i == 18 || i == 23 {
            #[trigger] text[i] == '-'
        } else {
            is_hex_digit(text[i])
        }
    &&& text[14] == '7'
    &&& text[19] == '8' || text[19] == '9' || text[19] == 'a' || text[19] == 'b'
}

/// Makes up an id with `uuid::Uuid::now_v7`, as text.
///
/// Claimed of the text: it is a UUID of version 7 and of the standard variant, in its usual form.
/// It depends on the time, on chance, and on the ids made before, so which one it is is left
/// unsaid, and so is that two of them differ. The outside function panics where the clock stands
/// before 1970 and where the system has no random bytes to give.
#[verifier::external_body]
fn new_uuid() -> (text: String)
    ensures
        is_uuid_v7(text@),
{
    uuid::Uuid::now_v7().to_string()
}

/// A call that was made, and of which the answer may be JSON of any shape.
#[derive(Debug)]
pub struct RawRequestHandle {
    request_id: Id,
    method: String,
}

/// The view of a [`RawRequestHandle`].
pub struct RequestHandleView {
    pub request_id: IdView,
    pub method: Seq<char>,
}

impl View for RawRequestHandle {
    type V = RequestHandleView;

    closed spec fn view(&self) -> RequestHandleView {
        RequestHandleView { request_id: self.request_id@, method: self.method@ }
    }
}

impl RawRequestHandle {
    /// Makes the handle to a call, and the request that is sent for it.
    pub fn start(request_id: Id, method: String, params: Option<JsonValue>) -> (call: (
        Request,
        RawRequestHandle,
    ))
        ensures
            call.0@ == (RequestView {
                id: request_id@,
                method: method@,
                params: option_json(params),
            }),
            call.1@ == (RequestHandleView { request_id: request_id@, method: method@ }),
    {
        let handle = RawRequestHandle { request_id: request_id.clone(), method: method.clone() };
        (Request::new(request_id, method, params), handle)
    }

    /// Returns the id that the call was given.
    pub fn request_id(&self) -> (id: Id)
        ensures
            id@ == self@.request_id,
    {
        self.request_id.clone()
    }

    /// Returns the command by which nobody waits for the answer any more.
    ///
    /// The remote peer does not learn of it.
    pub fn cancel(&self) -> (command: Command)
        ensures
            command matches Command::CancelPendingOutboundRequest { request_id } && request_id@
                == self@.request_id,
    {
        Command::CancelPendingOutboundRequest { request_id: self.request_id.clone() }
    }

    /// Makes the result of the call of what was delivered to the one who waits for the answer.
    pub fn result(&self, delivered: Option<Result<Response, JsonRpcError>>) -> (result: Result<
        JsonValue,
        JsonRpcError,
    >)
        ensures
            result_view(result) == call_outcome(self@.method, delivered),
            match delivered {
                Some(Ok(response)) => match response.payload {
                    ResponsePayload::Success(success) => result matches Ok(json) && json
                        == success.result,
                    ResponsePayload::Error(failure) => {
                        &&& result matches Err(JsonRpcError::MethodError { method, error })
                        &&& method@ == self@.method
                        &&& error == failure.error
                    },
                },
                Some(Err(error)) => result == Err::<JsonValue, JsonRpcError>(error),
                None => result == Err::<JsonValue, JsonRpcError>(
                    JsonRpcError::PendingRequestConnectionClosed,
                ),
            },
    {
        match delivered {
            Some(Ok(response)) => match response.payload {
                ResponsePayload::Success(success) => Ok(success.result),
                ResponsePayload::Error(failure) => Err(
                    JsonRpcError::MethodError { method: self.method.clone(), error: failure.error },
                ),
            },
            Some(Err(error)) => Err(error),
            None => Err(JsonRpcError::PendingRequestConnectionClosed),
        }
    }
}

/// What comes of a call, given what was delivered to the one who waits for the answer; nothing is
/// if the event loop went away.
pub open spec fn call_outcome(
    method: Seq<char>,
    delivered: Option<Result<Response, JsonRpcError>>,
) -> Result<Json, JsonRpcErrorView> {
    match delivered {
        Some(Ok(response)) => match response.payload@ {
            ResponsePayloadView::Success(result) => Ok(result),
            ResponsePayloadView::Error(error) => Err(
                JsonRpcErrorView::MethodError { method, error },
            ),
        },
        Some(Err(error)) => Err(error@),
        None => Err(JsonRpcErrorView::PendingRequestConnectionClosed),
    }
}

/// What the result of a call stands for.
pub open spec fn result_view(result: Result<JsonValue, JsonRpcError>) -> Result<
    Json,
    JsonRpcErrorView,
> {
    match result {
        Ok(json) => Ok(json@),
        Err(error) => Err(error@),
    }
}

/// The result of a call, read as a type; or why it cannot be.
fn parsed_response<V>(response: JsonValue, parsed: Result<V, String>, type_label: &'static str) -> (
result: Result<V, JsonRpcError>)
    ensures
        result == match parsed {
            Ok(value) => Ok(value),
            Err(source) => Err(JsonRpcError::DeserResponse { source, type_label, response }),
        },
{
    match parsed {
        Ok(value) => Ok(value),
        Err(source) => Err(JsonRpcError::DeserResponse { source, type_label, response }),
    }
}

/// A call that was made, and of which the answer is a `V`.
pub struct RequestHandle<V> {
    raw_handle: RawRequestHandle,
    phantom: PhantomData<V>,
}

impl<V> View for RequestHandle<V> {
    type V = RequestHandleView;

    closed spec fn view(&self) -> RequestHandleView {
        self.raw_handle@
    }
}

impl<V> RequestHandle<V> {
    /// Makes the handle to a call of which the answer is a `V`.
    pub fn new(raw_handle: RawRequestHandle) -> (handle: Self)
        ensures
            handle@ == raw_handle@,
    {
        RequestHandle { raw_handle, phantom: PhantomData }
    }

    /// Returns the id that the call was given.
    pub fn request_id(&self) -> (id: Id)
        ensures
            id@ == self@.request_id,
    {
        self.raw_handle.request_id()
    }

    /// Returns the command by which nobody waits for the answer any more.
    pub fn cancel(&self) -> (command: Command)
        ensures
            command matches Command::CancelPendingOutboundRequest { request_id } && request_id@
                == self@.request_id,
    {
        self.raw_handle.cancel()
    }

    /// Makes the result of the call of what was delivered to the one who waits for the answer.
    pub fn raw_result(&self, delivered: Option<Result<Response, JsonRpcError>>) -> (result: Result<
        JsonValue,
        JsonRpcError,
    >)
        ensures
            result_view(result) == call_outcome(self@.method, delivered),
    {
        self.raw_handle.result(delivered)
    }

    /// Makes the result of the call of what its JSON reads as, or of why it does not read as a
    /// `V`.
    pub fn result(
        &self,
        response: JsonValue,
        parsed: Result<V, String>,
        type_label: &'static str,
    ) -> (result: Result<V, JsonRpcError>)
        ensures
            result == match parsed {
                Ok(value) => Ok(value),
                Err(source) => Err(JsonRpcError::DeserResponse { source, type_label, response }),
            },
    {
        parsed_response(response, parsed, type_label)
    }
}

/// How far a batch has come.
#[derive(Clone, Copy, Debug, PartialEq, Eq, Structural)]
pub enum BatchStatus {
    /// Calls and notifications can be added to it.
    NotSent,
    /// It was to be sent, whatever came of that.
    Sent,
}

/// What comes of a call in a batch, given how far the batch has come and what was delivered to the
/// one who waits for the answer.
pub open spec fn batch_call_outcome(
    status: BatchStatus,
    method: Seq<char>,
    delivered: Option<Result<Response, JsonRpcError>>,
) -> Result<Json, JsonRpcErrorView> {
    match status {
        BatchStatus::NotSent => Err(JsonRpcErrorView::BatchNotSentYet),
        BatchStatus::Sent => call_outcome(method, delivered),
    }
}

/// A call in a batch, of which the answer is a `V`.
pub struct BatchMethodFuture<V> {
    raw_handle: RawRequestHandle,
    phantom: PhantomData<V>,
}

impl<V> View for BatchMethodFuture<V> {
    type V = RequestHandleView;

    closed spec fn view(&self) -> RequestHandleView {
        self.raw_handle@
    }
}

impl<V> BatchMethodFuture<V> {
    fn new(raw_handle: RawRequestHandle) -> (future: Self)
        ensures
            future@ == raw_handle@,
    {
        BatchMethodFuture { raw_handle, phantom: PhantomData }
    }

    /// Returns the id that the call was given.
    pub fn request_id(&self) -> (id: Id)
        ensures
            id@ == self@.request_id,
    {
        self.raw_handle.request_id()
    }

    /// Returns the error that is the result of the call at once, which there is as long as the
    /// batch was not sent.
    pub fn not_sent(&self, status: BatchStatus) -> (error: Option<JsonRpcError>)
        ensures
            error == match status {
                BatchStatus::NotSent => Some(JsonRpcError::BatchNotSentYet),
                BatchStatus::Sent => None,
            },
    {
        match status {
            BatchStatus::NotSent => Some(JsonRpcError::BatchNotSentYet),
            BatchStatus::Sent => None,
        }
    }

    /// Makes the result of the call of what was delivered to the one who waits for the answer;
    /// before the batch was sent, the result is an error whatever was delivered.
    pub fn raw_result(
        &self,
        status: BatchStatus,
        delivered: Option<Result<Response, JsonRpcError>>,
    ) -> (result: Result<JsonValue, JsonRpcError>)
        ensures
            result_view(result) == batch_call_outcome(status, self@.method, delivered),
    {
        match self.not_sent(status) {
            Some(error) => Err(error),
            None => self.raw_handle.result(delivered),
        }
    }

    /// Makes the result of the call of what its JSON reads as, or of why it does not read as a
    /// `V`.
    pub fn result(
        &self,
        response: JsonValue,
        parsed: Result<V, String>,
        type_label: &'static str,
    ) -> (result: Result<V, JsonRpcError>)
        ensures
            result == match parsed {
                Ok(value) => Ok(value),
                Err(source) => Err(JsonRpcError::DeserResponse { source, type_label, response }),
            },
    {
        parsed_response(response, parsed, type_label)
    }
}

/// Makes a call under an id that was made up for it: what is to be sent, and the handle to the
/// call.
pub fn start_call_raw<T, C>(method: String, params: Option<JsonValue>, response_tx: T) -> (started: (
    OutboundMessage<T, C>,
    RawRequestHandle,
))
    ensures
        started.1@.method == method@,
        started.1@.request_id matches IdView::Str(text) && is_uuid_v7(text),
        started.0 matches OutboundMessage::Method { request, response_tx: tx } && tx == response_tx
            && request@ == (RequestView {
            id: started.1@.request_id,
            method: method@,
            params: option_json(params),
        }),
{
    let (request, handle) = RawRequestHandle::start(Id::Str(new_uuid()), method, params);
    (OutboundMessage::Method { request, response_tx }, handle)
}

/// Returns the command by which the handler of a call of the remote peer is asked to stop.
pub fn cancel_server_request(request_id: Id) -> (command: Command)
    ensures
        command == (Command::CancelPendingInboundRequest { request_id }),
{
    Command::CancelPendingInboundRequest { request_id }
}

/// Makes a notification: what is to be sent.
pub fn raise_raw<T, C>(method: String, params: Option<JsonValue>, send_confirmation_tx: C) -> (
outbound: OutboundMessage<T, C>)
    ensures
        outbound matches OutboundMessage::Notification { notification, send_confirmation_tx: tx }
            && tx == send_confirmation_tx && notification@ == (NotificationView {
            method: method@,
            params: option_json(params),
        }),
{
    OutboundMessage::Notification {
        notification: Notification::new(method, params),
        send_confirmation_tx,
    }
}

/// Whether something could be queued; it cannot once the connection is closed.
pub open spec fn queue_result(accepted: bool) -> Result<(), JsonRpcError> {
    if accepted {
        Ok(())
    } else {
        Err(JsonRpcError::PendingRequestConnectionClosed)
    }
}

/// Reports whether something could be queued; it cannot once the connection is closed.
pub fn queued(accepted: bool) -> (result: Result<(), JsonRpcError>)
    ensures
        result == queue_result(accepted),
{
    if accepted {
        Ok(())
    } else {
        Err(JsonRpcError::PendingRequestConnectionClosed)
    }
}

/// The parameters of a call that were turned into JSON, or why they could not be.
pub fn serialized_params(json: Result<JsonValue, String>, type_label: &'static str) -> (result:
    Result<JsonValue, JsonRpcError>)
    ensures
        result == match json {
            Ok(json) => Ok(json),
            Err(source) => Err(JsonRpcError::SerRequest { source, type_label }),
        },
{
    match json {
        Ok(json) => Ok(json),
        Err(source) => Err(JsonRpcError::SerRequest { source, type_label }),
    }
}

/// Whether something was sent, given the word that was delivered of it; none is if the event loop
/// went away.
pub fn confirmation(delivered: Option<Result<(), JsonRpcError>>) -> (result: Result<
    (),
    JsonRpcError,
>)
    ensures
        result == match delivered {
            Some(result) => result,
            None => Err(JsonRpcError::PendingRequestConnectionClosed),
        },
{
    match delivered {
        Some(result) => result,
        None => Err(JsonRpcError::PendingRequestConnectionClosed),
    }
}

/// Method calls and notifications that are collected to be sent as one batch.
pub struct BatchBuilder<T> {
    requests: Vec<(Request, T)>,
    notifications: Vec<Notification>,
}

/// The view of a [`BatchBuilder`].
#[verifier::ext_equal]
pub struct BatchView<T> {
    /// The calls in the order in which they were added, each with where its answer goes.
    pub requests: Seq<(Request, T)>,
    /// The notifications in the order in which they were added.
    pub notifications: Seq<Notification>,
}

impl<T> View for BatchBuilder<T> {
    type V = BatchView<T>;

    closed spec fn view(&self) -> BatchView<T> {
        BatchView { requests: self.requests@, notifications: self.notifications@ }
    }
}

/// What became of a call that was to be added to a batch.
pub enum BatchCall<T, V> {
    /// It was added.
    Added(BatchMethodFuture<V>),
    /// It was not added; the one who waits for the answer gets this error at once, and need not
    /// wait for the batch to be sent: this is the status that counts for it.
    Failed { tx: T, error: JsonRpcError, future: BatchMethodFuture<V>, status: BatchStatus },
}

/// What is done to send a batch.
pub enum BatchSend<T, C> {
    /// Nothing: it is empty.
    Nothing,
    /// This is sent.
    Send(OutboundMessage<T, C>),
}

/// A call was added to the batch, to which `handle` is the handle, and nothing else changed.
pub open spec fn is_added<T>(
    before: BatchView<T>,
    after: BatchView<T>,
    handle: RequestHandleView,
    method: String,
    params: Option<JsonValue>,
    tx: T,
) -> bool {
    &&& after.notifications == before.notifications
    &&& after.requests.len() == before.requests.len() + 1
    &&& after.requests.drop_last() == before.requests
    &&& after.requests.last().1 == tx
    &&& after.requests.last().0@ == (RequestView {
        id: handle.request_id,
        method: method@,
        params: option_json(params),
    })
    &&& handle.method == method@
    &&& handle.request_id matches IdView::Str(text) && is_uuid_v7(text)
}

/// A notification was added to the batch, and nothing else changed.
pub open spec fn is_raised<T>(
    before: BatchView<T>,
    after: BatchView<T>,
    method: String,
    params: Option<JsonValue>,
) -> bool {
    &&& after.requests == before.requests
    &&& after.notifications.len() == before.notifications.len() + 1
    &&& after.notifications.drop_last() == before.notifications
    &&& after.notifications.last()@ == (NotificationView {
        method: method@,
        params: option_json(params),
    })
}

/// What is done to send a batch, and its status from then on.
pub open spec fn is_batch_sent<T, C>(
    batch: BatchView<T>,
    send_confirmation_tx: C,
    send: BatchSend<T, C>,
    status: BatchStatus,
) -> bool {
    &&& status == BatchStatus::Sent
    &&& if batch.requests.len() == 0 && batch.notifications.len() == 0 {
        send is Nothing
    } else {
        send matches BatchSend::Send(
            OutboundMessage::Batch { requests, notifications, send_confirmation_tx: tx },
        ) && requests@ == batch.requests && notifications@ == batch.notifications && tx
            == send_confirmation_tx
    }
}

impl<T> BatchBuilder<T> {
    /// Creates an empty batch.
    pub fn new() -> (batch: Self)
        ensures
            batch@ == (BatchView::<T> { requests: Seq::empty(), notifications: Seq::empty() }),
    {
        BatchBuilder { requests: Vec::new(), notifications: Vec::new() }
    }

    /// Returns the status of the batch, which is not sent as long as there is a builder for it.
    pub fn status(&self) -> (status: BatchStatus)
        ensures
            status == BatchStatus::NotSent,
    {
        BatchStatus::NotSent
    }

    /// Adds a method call under an id that is made up for it.
    pub fn call_raw<V>(&mut self, method: String, params: Option<JsonValue>, response_tx: T) -> (
    future: BatchMethodFuture<V>)
        ensures
            is_added(old(self)@, final(self)@, future@, method, params, response_tx),
    {
        let (request, handle) = RawRequestHandle::start(Id::Str(new_uuid()), method, params);
        self.requests.push((request, response_tx));
        assert(self@.requests.drop_last() =~= old(self)@.requests);
        BatchMethodFuture::new(handle)
    }

    /// Adds a method call without parameters.
    pub fn call<V>(&mut self, method: String, response_tx: T) -> (future: BatchMethodFuture<V>)
        ensures
            is_added(old(self)@, final(self)@, future@, method, None, response_tx),
    {
        self.call_raw(method, None, response_tx)
    }

    /// Adds a method call with parameters, unless they could not be turned into JSON.
    pub fn call_with_params<V>(
        &mut self,
        method: String,
        params: Result<JsonValue, String>,
        type_label: &'static str,
        response_tx: T,
    ) -> (call: BatchCall<T, V>)
        ensures
            match params {
                Ok(params) => {
                    &&& call matches BatchCall::Added(future)
                    &&& is_added(
                        old(self)@,
                        final(self)@,
                        future@,
                        method,
                        Some(params),
                        response_tx,
                    )
                },
                Err(source) => {
                    &&& final(self)@ == old(self)@
                    &&& call matches BatchCall::Failed { tx, error, future, status }
                    &&& status == BatchStatus::Sent
                    &&& tx == response_tx
                    &&& error == (JsonRpcError::SerRequest { source, type_label })
                    &&& future@ == (RequestHandleView {
                        request_id: IdView::Null,
                        method: method@,
                    })
                },
            },
    {
        match serialized_params(params, type_label) {
            Ok(params) => BatchCall::Added(self.call_raw(method, Some(params), response_tx)),
            Err(error) => BatchCall::Failed {
                tx: response_tx,
                error,
                future: BatchMethodFuture::new(RawRequestHandle { request_id: Id::Null, method }),
                status: BatchStatus::Sent,
            },
        }
    }

    /// Adds a notification.
    pub fn raise_raw(&mut self, method: String, params: Option<JsonValue>)
        ensures
            is_raised(old(self)@, final(self)@, method, params),
    {
        self.notifications.push(Notification::new(method, params));
        assert(self@.notifications.drop_last() =~= old(self)@.notifications);
    }

    /// Adds a notification without parameters.
    pub fn raise(&mut self, method: String)
        ensures
            is_raised(old(self)@, final(self)@, method, None),
    {
        self.raise_raw(method, None)
    }

    /// Adds a notification with parameters, or without if they could not be turned into JSON.
    pub fn raise_with_params(&mut self, method: String, params: Result<JsonValue, String>)
        ensures
            is_raised(
                old(self)@,
                final(self)@,
                method,
                match params {
                    Ok(params) => Some(params),
                    Err(_) => None,
                },
            ),
    {
        let params = match params {
            Ok(params) => Some(params),
            Err(_) => None,
        };
        self.raise_raw(method, params)
    }

    /// Returns what is to be sent for the batch, if anything is, and the status of the batch from
    /// then on, whatever comes of sending it.
    pub fn send<C>(self, send_confirmation_tx: C) -> (sent: (BatchSend<T, C>, BatchStatus))
        ensures
            is_batch_sent(self@, send_confirmation_tx, sent.0, sent.1),
    {
        let send = if self.requests.is_empty() && self.notifications.is_empty() {
            BatchSend::Nothing
        } else {
            BatchSend::Send(
                OutboundMessage::Batch {
                    requests: self.requests,
                    notifications: self.notifications,
                    send_confirmation_tx,
                },
            )
        };
        (send, BatchStatus::Sent)
    }
}

/// As long as a batch was not sent each call in it fails with that error, whatever was delivered.
pub proof fn law_calls_of_an_unsent_batch_fail(
    method: Seq<char>,
    delivered: Option<Result<Response, JsonRpcError>>,
)
    ensures
        batch_call_outcome(BatchStatus::NotSent, method, delivered) == Err::<Json, _>(
            JsonRpcErrorView::BatchNotSentYet,
        ),
{
}

/// A batch that could not be queued, because the connection is closed, counts as sent all the
/// same: the one who sends it learns that the connection is closed, each call in it is told so,
/// and that, not that the batch was not sent, is what comes of the call.
pub proof fn law_refused_batch_counts_as_sent<T, C>(
    batch: BatchView<T>,
    send_confirmation_tx: C,
    send: BatchSend<T, C>,
    status: BatchStatus,
    call: int,
    method: Seq<char>,
)
    requires
        is_batch_sent(batch, send_confirmation_tx, send, status),
        0 <= call < batch.requests.len(),
    ensures
        queue_result(false) == Err::<(), _>(JsonRpcError::PendingRequestConnectionClosed),
        send matches BatchSend::Send(outbound) && refusals(outbound)[call] == (Reply::<
            T,
            C,
        >::Response {
            tx: batch.requests[call].1,
            result: Err(JsonRpcError::PendingRequestConnectionClosed),
        }),
        batch_call_outcome(
            status,
            method,
            Some(Err(JsonRpcError::PendingRequestConnectionClosed)),
        ) == Err::<Json, _>(JsonRpcErrorView::PendingRequestConnectionClosed),
{
}

/// A call that the remote peer answers with a result comes to that very result, whatever it is; one
/// that the remote peer answers with an error fails with that very error and the name of the method.
/// So it is of a call that was made alone, and of one in a batch that was sent.
pub proof fn law_call_comes_to_what_was_answered(method: Seq<char>, response: Response)
    ensures
        match response.payload {
            ResponsePayload::Success(success) => {
                &&& call_outcome(method, Some(Ok(response))) == Ok::<_, JsonRpcErrorView>(
                    success.result@,
                )
                &&& batch_call_outcome(BatchStatus::Sent, method, Some(Ok(response))) == Ok::<
                    _,
                    JsonRpcErrorView,
                >(success.result@)
            },
            ResponsePayload::Error(failure) => {
                &&& call_outcome(method, Some(Ok(response))) == Err::<Json, _>(
                    JsonRpcErrorView::MethodError { method, error: failure.error@ },
                )
                &&& batch_call_outcome(BatchStatus::Sent, method, Some(Ok(response))) == Err::<
                    Json,
                    _,
                >(JsonRpcErrorView::MethodError { method, error: failure.error@ })
            },
        },
{
}

/// A call that is not answered fails: with the reason, where one was delivered, and else because the
/// connection closed. So it is of a call that was made alone, and of one in a batch that was sent.
pub proof fn law_call_without_answer_fails(method: Seq<char>, reason: JsonRpcError)
    ensures
        call_outcome(method, Some(Err(reason))) == Err::<Json, _>(reason@),
        batch_call_outcome(BatchStatus::Sent, method, Some(Err(reason))) == Err::<Json, _>(reason@),
        call_outcome(method, None) == Err::<Json, _>(
            JsonRpcErrorView::PendingRequestConnectionClosed,
        ),
        batch_call_outcome(BatchStatus::Sent, method, None) == Err::<Json, _>(
            JsonRpcErrorView::PendingRequestConnectionClosed,
        ),
{
}

/// What comes of a call stands for the value of its result, or for its error.
pub proof fn law_result_view_holds_the_result(json: JsonValue, error: JsonRpcError)
    ensures
        result_view(Ok(json)) == Ok::<_, JsonRpcErrorView>(json@),
        result_view(Err(error)) == Err::<Json, _>(error@),
{
}

/// Where a call was added to a batch, it comes after all calls that were there, with the method and
/// the parameters that it was given and the id that its handle has; and all else is as before.
pub proof fn law_added_call_is_the_last_of_the_batch<T>(
    before: BatchView<T>,
    after: BatchView<T>,
    handle: RequestHandleView,
    method: String,
    params: Option<JsonValue>,
    tx: T,
)
    requires
        is_added(before, after, handle, method, params, tx),
    ensures
        after.requests.len() == before.requests.len() + 1,
        forall|i: int|
            0 <= i < before.requests.len() ==> #[trigger] after.requests[i] == before.requests[i],
        after.notifications.len() == before.notifications.len(),
        forall|i: int|
            0 <= i < before.notifications.len() ==> #[trigger] after.notifications[i]
                == before.notifications[i],
        ({
            let (request, waiting) = after.requests[before.requests.len() as int];
            &&& waiting == tx
            &&& request.id@ == handle.request_id
            &&& request.method@ == method@
            &&& match (request.params, params) {
                (Some(sent), Some(given)) => sent@ == given@,
                (None, None) => true,
                _ => false,
            }
        }),
        handle.method == method@,
        handle.request_id matches IdView::Str(text) && is_uuid_v7(text),
{
    assert forall|i: int| 0 <= i < before.requests.len() implies #[trigger] after.requests[i]
        == before.requests[i] by {
        assert(after.requests.drop_last()[i] == after.requests[i]);
    }
}

/// Where a notification was added to a batch, it comes after all notifications that were there, with
/// the method and the parameters that it was given; and all else is as before.
pub proof fn law_added_notification_is_the_last_of_the_batch<T>(
    before: BatchView<T>,
    after: BatchView<T>,
    method: String,
    params: Option<JsonValue>,
)
    requires
        is_raised(before, after, method, params),
    ensures
        after.requests.len() == before.requests.len(),
        forall|i: int|
            0 <= i < before.requests.len() ==> #[trigger] after.requests[i] == before.requests[i],
        after.notifications.len() == before.notifications.len() + 1,
        forall|i: int|
            0 <= i < before.notifications.len() ==> #[trigger] after.notifications[i]
                == before.notifications[i],
        ({
            let notification = after.notifications[before.notifications.len() as int];
            &&& notification.method@ == method@
            &&& match (notification.params, params) {
                (Some(sent), Some(given)) => sent@ == given@,
                (None, None) => true,
                _ => false,
            }
        }),
{
    assert forall|i: int| 0 <= i < before.notifications.len() implies #[trigger]
        after.notifications[i] == before.notifications[i] by {
        assert(after.notifications.drop_last()[i] == after.notifications[i]);
    }
}

/// To send a batch is to send all calls and notifications in it, unless there are none; it counts as
/// sent from then on.
pub proof fn law_batch_is_sent_whole<T, C>(
    batch: BatchView<T>,
    send_confirmation_tx: C,
    send: BatchSend<T, C>,
    status: BatchStatus,
)
    requires
        is_batch_sent(batch, send_confirmation_tx, send, status),
    ensures
        status == BatchStatus::Sent,
        send is Nothing <==> batch.requests.len() == 0 && batch.notifications.len() == 0,
        send matches BatchSend::Send(outbound) ==> {
            &&& outbound matches OutboundMessage::Batch {
                requests,
                notifications,
                send_confirmation_tx: tx,
            }
            &&& tx == send_confirmation_tx
            &&& requests@.len() == batch.requests.len()
            &&& forall|i: int|
                0 <= i < batch.requests.len() ==> #[trigger] requests@[i] == batch.requests[i]
            &&& notifications@.len() == batch.notifications.len()
            &&& forall|i: int|
                0 <= i < batch.notifications.len() ==> #[trigger] notifications@[i]
                    == batch.notifications[i]
        },
{
}

/// Something that was accepted is queued; something that was not is refused because the connection
/// closed.
pub proof fn law_what_is_not_accepted_is_refused(accepted: bool)
    ensures
        queue_result(accepted) is Ok <==> accepted,
        !accepted ==> queue_result(accepted) == Err::<(), _>(
            JsonRpcError::PendingRequestConnectionClosed,
        ),
{
}

/// A version 7 UUID has 36 characters: dashes between its groups of 8, 4, 4, 4 and 12, and else
/// hexadecimal digits in lower case, of which the one after the second dash is a seven.
pub proof fn law_form_of_a_uuid(text: Seq<char>, i: int)
    requires
        is_uuid_v7(text),
        0 <= i < 36,
    ensures
        text.len() == 36,
        text[8] == '-' && text[13] == '-' && text[18] == '-' && text[23] == '-',
        text[14] == '7',
        i != 8 && i != 13 && i != 18 && i != 23 ==> '0' <= text[i] <= '9' || 'a' <= text[i] <= 'f',
{
}

} // verus!
