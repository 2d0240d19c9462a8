//! The messages of JSON-RPC 2.0.
//!
//! Each type has a mathematical counterpart, its view, in which text is a sequence of characters
//! and JSON is a [`Json`] value; contracts speak of the views.
use crate::assoc_map::Key;
use crate::json::{option_json, Json, JsonValue};
use crate::text::{decimal, i32_to_text, signed_decimal, u64_to_text};
use vstd::prelude::*;
use vstd::string::StringExecFns;

verus! {

/// The protocol version marker, `"2.0"` on the wire.
#[derive(Clone, Copy, Debug, Default, PartialEq, Eq, Structural)]
pub struct TwoPointZero;

/// Identifies a request, so that its response can be told from others.
#[derive(Debug, Eq, Hash, PartialOrd, Ord)]
pub enum Id {
    Null,
    Number(u64),
    Str(String),
}

/// The view of an [`Id`].
pub enum IdView {
    Null,
    Number(u64),
    Str(Seq<char>),
}

impl View for Id {
    type V = IdView;

    open spec fn view(&self) -> IdView {
        match self {
            Id::Null => IdView::Null,
            Id::Number(n) => IdView::Number(*n),
            Id::Str(s) => IdView::Str(s@),
        }
    }
}

/// What an optional id stands for.
pub open spec fn option_id(id: Option<Id>) -> Option<IdView> {
    match id {
        Some(id) => Some(id@),
        None => None,
    }
}

impl PartialEq for Id {
    fn eq(&self, other: &Id) -> (same: bool) {
        self.same(other)
    }
}

impl vstd::std_specs::cmp::PartialEqSpecImpl for Id {
    open spec fn obeys_eq_spec() -> bool {
        true
    }

    open spec fn eq_spec(&self, other: &Id) -> bool {
        self@ == other@
    }
}

impl Clone for Id {
    fn clone(&self) -> (copy: Self)
        ensures
            copy == *self,
    {
        match self {
            Id::Null => Id::Null,
            Id::Number(n) => Id::Number(*n),
            Id::Str(s) => Id::Str(s.clone()),
        }
    }
}

impl Key for Id {
    type Mark = IdView;

    open spec fn mark(&self) -> IdView {
        self@
    }

    fn same(&self, other: &Self) -> bool {
        match (self, other) {
            (Id::Null, Id::Null) => true,
            (Id::Number(a), Id::Number(b)) => *a == *b,
            (Id::Str(a), Id::Str(b)) => *a == *b,
            _ => false,
        }
    }
}

impl IdView {
    /// The id as it is shown to people.
    pub open spec fn text(self) -> Seq<char> {
        match self {
            IdView::Null => "null"@,
            IdView::Number(n) => decimal(n as nat),
            IdView::Str(s) => s,
        }
    }
}

impl Id {
    /// Shows the id: `null`, the number in decimal, or the text itself.
    pub fn to_text(&self) -> (text: String)
        ensures
            text@ == self@.text(),
    {
        match self {
            Id::Null => "null".to_string(),
            Id::Number(n) => u64_to_text(*n),
            Id::Str(s) => s.clone(),
        }
    }
}

/// What went wrong, as a class of errors that has a number on the wire.
#[derive(Clone, Copy, Debug, PartialEq, Eq, Structural)]
pub enum ErrorCode {
    /// The text received is not valid JSON.
    ParseError,
    /// The request is too big.
    OversizedRequest,
    /// The JSON received is not a valid request.
    InvalidRequest,
    /// The method does not exist or is not available.
    MethodNotFound,
    /// The server has no capacity left.
    ServerIsBusy,
    /// The parameters do not fit the method.
    InvalidParams,
    /// Something failed inside the peer.
    InternalError,
    /// Any other number.
    ServerError(i32),
}

impl ErrorCode {
    /// The number that stands for the code on the wire.
    pub open spec fn number(self) -> i32 {
        match self {
            ErrorCode::ParseError => (-32700) as i32,
            ErrorCode::OversizedRequest => (-32007) as i32,
            ErrorCode::InvalidRequest => (-32600) as i32,
            ErrorCode::MethodNotFound => (-32601) as i32,
            ErrorCode::ServerIsBusy => (-32009) as i32,
            ErrorCode::InvalidParams => (-32602) as i32,
            ErrorCode::InternalError => (-32603) as i32,
            ErrorCode::ServerError(code) => code,
        }
    }

    /// The code that a number on the wire is read as.
    pub open spec fn from_number(number: i32) -> ErrorCode {
        if number == -32700 {
            ErrorCode::ParseError
        } else if number == -32007 {
            ErrorCode::OversizedRequest
        } else if number == -32600 {
            ErrorCode::InvalidRequest
        } else if number == -32601 {
            ErrorCode::MethodNotFound
        } else if number == -32602 {
            ErrorCode::InvalidParams
        } else if number == -32603 {
            ErrorCode::InternalError
        } else {
            ErrorCode::ServerError(number)
        }
    }

    /// The standing description of the code.
    pub open spec fn description(self) -> Seq<char> {
        match self {
            ErrorCode::ParseError => "Parse error"@,
            ErrorCode::OversizedRequest => "Request is too big"@,
            ErrorCode::InvalidRequest => "Invalid request"@,
            ErrorCode::MethodNotFound => "Method not found"@,
            ErrorCode::ServerIsBusy => "Server is busy, try again later"@,
            ErrorCode::InvalidParams => "Invalid params"@,
            ErrorCode::InternalError => "Internal error"@,
            ErrorCode::ServerError(_) => "Server error"@,
        }
    }

    /// Returns the number that stands for the code on the wire.
    pub fn code(&self) -> (number: i32)
        ensures
            number == self.number(),
    {
        match self {
            ErrorCode::ParseError => -32700,
            ErrorCode::OversizedRequest => -32007,
            ErrorCode::InvalidRequest => -32600,
            ErrorCode::MethodNotFound => -32601,
            ErrorCode::ServerIsBusy => -32009,
            ErrorCode::InvalidParams => -32602,
            ErrorCode::InternalError => -32603,
            ErrorCode::ServerError(code) => *code,
        }
    }

    /// Returns the standing description of the code.
    pub fn message(&self) -> (text: &'static str)
        ensures
            text@ == self.description(),
    {
        match self {
            ErrorCode::ParseError => "Parse error",
            ErrorCode::OversizedRequest => "Request is too big",
            ErrorCode::InvalidRequest => "Invalid request",
            ErrorCode::MethodNotFound => "Method not found",
            ErrorCode::ServerIsBusy => "Server is busy, try again later",
            ErrorCode::InvalidParams => "Invalid params",
            ErrorCode::InternalError => "Internal error",
            ErrorCode::ServerError(_) => "Server error",
        }
    }

    /// The code as it is shown to people.
    pub open spec fn text(self) -> Seq<char> {
        signed_decimal(self.number() as int) + ": "@ + self.description()
    }

    /// Shows the code: its number and its description.
    pub fn to_text(&self) -> (text: String)
        ensures
            text@ == self.text(),
    {
        let mut text = i32_to_text(self.code());
        text.append(": ");
        text.append(self.message());
        text
    }
}

impl From<i32> for ErrorCode {
    fn from(number: i32) -> (code: Self) {
        if number == -32700 {
            ErrorCode::ParseError
        } else if number == -32007 {
            ErrorCode::OversizedRequest
        } else if number == -32600 {
            ErrorCode::InvalidRequest
        } else if number == -32601 {
            ErrorCode::MethodNotFound
        } else if number == -32602 {
            ErrorCode::InvalidParams
        } else if number == -32603 {
            ErrorCode::InternalError
        } else {
            ErrorCode::ServerError(number)
        }
    }
}

impl vstd::std_specs::convert::FromSpecImpl<i32> for ErrorCode {
    open spec fn obeys_from_spec() -> bool {
        true
    }

    open spec fn from_spec(number: i32) -> Self {
        ErrorCode::from_number(number)
    }
}

/// What went wrong, as it is told to the remote peer.
#[derive(Debug)]
pub struct ErrorDetails {
    pub code: ErrorCode,
    pub message: String,
    pub data: Option<JsonValue>,
}

/// The view of [`ErrorDetails`].
pub struct ErrorDetailsView {
    pub code: ErrorCode,
    pub message: Seq<char>,
    pub data: Option<Json>,
}

impl View for ErrorDetails {
    type V = ErrorDetailsView;

    open spec fn view(&self) -> ErrorDetailsView {
        ErrorDetailsView {
            code: self.code,
            message: self.message@,
            data: option_json(self.data),
        }
    }
}

impl Clone for ErrorDetails {
    fn clone(&self) -> (copy: Self)
        ensures
            copy@ == self@,
    {
        ErrorDetails { code: self.code, message: self.message.clone(), data: self.data.clone() }
    }
}

/// Error details with a code, a message and, where there is any, data.
pub open spec fn details(
    code: ErrorCode,
    message: Seq<char>,
    data: Option<Json>,
) -> ErrorDetailsView {
    ErrorDetailsView { code, message, data }
}

impl ErrorDetails {
    pub fn new(code: ErrorCode, message: String, data: Option<JsonValue>) -> (result: Self)
        ensures
            result.code == code,
            result.message == message,
            result.data == data,
            result@ == details(code, message@, option_json(data)),
    {
        ErrorDetails { code, message, data }
    }

    pub fn parse_error(message: String, data: Option<JsonValue>) -> (result: Self)
        ensures
            result@ == details(ErrorCode::ParseError, message@, option_json(data)),
    {
        Self::new(ErrorCode::ParseError, message, data)
    }

    pub fn oversized_request(message: String, data: Option<JsonValue>) -> (result: Self)
        ensures
            result@ == details(ErrorCode::OversizedRequest, message@, option_json(data)),
    {
        Self::new(ErrorCode::OversizedRequest, message, data)
    }

    pub fn invalid_request(message: String, data: Option<JsonValue>) -> (result: Self)
        ensures
            result@ == details(ErrorCode::InvalidRequest, message@, option_json(data)),
    {
        Self::new(ErrorCode::InvalidRequest, message, data)
    }

    pub fn method_not_found(message: String, data: Option<JsonValue>) -> (result: Self)
        ensures
            result@ == details(ErrorCode::MethodNotFound, message@, option_json(data)),
    {
        Self::new(ErrorCode::MethodNotFound, message, data)
    }

    pub fn server_is_busy(message: String, data: Option<JsonValue>) -> (result: Self)
        ensures
            result@ == details(ErrorCode::ServerIsBusy, message@, option_json(data)),
    {
        Self::new(ErrorCode::ServerIsBusy, message, data)
    }

    pub fn invalid_params(message: String, data: Option<JsonValue>) -> (result: Self)
        ensures
            result@ == details(ErrorCode::InvalidParams, message@, option_json(data)),
    {
        Self::new(ErrorCode::InvalidParams, message, data)
    }

    pub fn internal_error(message: String, data: Option<JsonValue>) -> (result: Self)
        ensures
            result@ == details(ErrorCode::InternalError, message@, option_json(data)),
    {
        Self::new(ErrorCode::InternalError, message, data)
    }

    pub fn server_error(code: i32, message: String, data: Option<JsonValue>) -> (result: Self)
        ensures
            result@ == details(ErrorCode::ServerError(code), message@, option_json(data)),
    {
        Self::new(ErrorCode::ServerError(code), message, data)
    }
}

/// A method call, which the remote peer answers with a [`Response`] that bears the same id.
#[derive(Debug)]
pub struct Request {
    pub jsonrpc: TwoPointZero,
    pub id: Id,
    pub method: String,
    pub params: Option<JsonValue>,
}

/// The view of a [`Request`].
pub struct RequestView {
    pub id: IdView,
    pub method: Seq<char>,
    pub params: Option<Json>,
}

impl View for Request {
    type V = RequestView;

    open spec fn view(&self) -> RequestView {
        RequestView { id: self.id@, method: self.method@, params: option_json(self.params) }
    }
}

impl Clone for Request {
    fn clone(&self) -> (copy: Self)
        ensures
            copy@ == self@,
    {
        Request {
            jsonrpc: self.jsonrpc,
            id: self.id.clone(),
            method: self.method.clone(),
            params: self.params.clone(),
        }
    }
}

impl Request {
    /// Creates a method call.
    pub fn new(id: Id, method: String, params: Option<JsonValue>) -> (request: Self)
        ensures
            request@ == (RequestView { id: id@, method: method@, params: option_json(params) }),
            request.id == id,
            request.method == method,
            request.params == params,
    {
        Request { jsonrpc: TwoPointZero, id, method, params }
    }
}

/// A message that is no valid request but has an id, by which the sender can match the error it
/// gets in return.
#[derive(Debug)]
pub struct InvalidRequest {
    pub id: Id,
}

impl Clone for InvalidRequest {
    fn clone(&self) -> (copy: Self)
        ensures
            copy == *self,
    {
        InvalidRequest { id: self.id.clone() }
    }
}

/// A call that is not answered; it has no id.
#[derive(Debug)]
pub struct Notification {
    pub jsonrpc: TwoPointZero,
    pub method: String,
    pub params: Option<JsonValue>,
}

/// The view of a [`Notification`].
pub struct NotificationView {
    pub method: Seq<char>,
    pub params: Option<Json>,
}

impl View for Notification {
    type V = NotificationView;

    open spec fn view(&self) -> NotificationView {
        NotificationView { method: self.method@, params: option_json(self.params) }
    }
}

impl Clone for Notification {
    fn clone(&self) -> (copy: Self)
        ensures
            copy@ == self@,
    {
        Notification {
            jsonrpc: self.jsonrpc,
            method: self.method.clone(),
            params: self.params.clone(),
        }
    }
}

impl Notification {
    /// Creates a notification.
    pub fn new(method: String, params: Option<JsonValue>) -> (notification: Self)
        ensures
            notification@ == (NotificationView { method: method@, params: option_json(params) }),
            notification.method == method,
            notification.params == params,
    {
        Notification { jsonrpc: TwoPointZero, method, params }
    }
}

/// The part of a response that reports success.
#[derive(Debug)]
pub struct SuccessResponse {
    pub result: JsonValue,
}

impl Clone for SuccessResponse {
    fn clone(&self) -> (copy: Self)
        ensures
            copy.result@ == self.result@,
    {
        SuccessResponse { result: self.result.clone() }
    }
}

impl From<JsonValue> for SuccessResponse {
    fn from(result: JsonValue) -> (success: Self) {
        SuccessResponse { result }
    }
}

impl vstd::std_specs::convert::FromSpecImpl<JsonValue> for SuccessResponse {
    open spec fn obeys_from_spec() -> bool {
        true
    }

    open spec fn from_spec(result: JsonValue) -> Self {
        SuccessResponse { result }
    }
}

/// The part of a response that reports failure.
#[derive(Debug)]
pub struct ErrorResponse {
    pub error: ErrorDetails,
}

impl Clone for ErrorResponse {
    fn clone(&self) -> (copy: Self)
        ensures
            copy.error@ == self.error@,
    {
        ErrorResponse { error: self.error.clone() }
    }
}

impl From<ErrorDetails> for ErrorResponse {
    fn from(error: ErrorDetails) -> (response: Self) {
        ErrorResponse { error }
    }
}

impl vstd::std_specs::convert::FromSpecImpl<ErrorDetails> for ErrorResponse {
    open spec fn obeys_from_spec() -> bool {
        true
    }

    open spec fn from_spec(error: ErrorDetails) -> Self {
        ErrorResponse { error }
    }
}

/// What a response says: the result of the call, or why it failed.
#[derive(Debug)]
pub enum ResponsePayload {
    Error(ErrorResponse),
    Success(SuccessResponse),
}

/// The view of a [`ResponsePayload`].
pub enum ResponsePayloadView {
    Error(ErrorDetailsView),
    Success(Json),
}

impl View for ResponsePayload {
    type V = ResponsePayloadView;

    open spec fn view(&self) -> ResponsePayloadView {
        match self {
            ResponsePayload::Error(response) => ResponsePayloadView::Error(response.error@),
            ResponsePayload::Success(response) => ResponsePayloadView::Success(response.result@),
        }
    }
}

impl Clone for ResponsePayload {
    fn clone(&self) -> (copy: Self)
        ensures
            copy@ == self@,
    {
        match self {
            ResponsePayload::Error(response) => ResponsePayload::error(response.error.clone()),
            ResponsePayload::Success(response) => ResponsePayload::success(response.result.clone()),
        }
    }
}

impl ResponsePayload {
    /// Creates a payload that reports success.
    pub fn success(result: JsonValue) -> (payload: Self)
        ensures
            payload@ == ResponsePayloadView::Success(result@),
            payload == ResponsePayload::Success(SuccessResponse { result }),
    {
        ResponsePayload::Success(SuccessResponse { result })
    }

    /// Creates a payload that reports failure.
    pub fn error(error: ErrorDetails) -> (payload: Self)
        ensures
            payload@ == ResponsePayloadView::Error(error@),
            payload == ResponsePayload::Error(ErrorResponse { error }),
    {
        ResponsePayload::Error(ErrorResponse { error })
    }
}

/// The answer to a [`Request`].
#[derive(Debug)]
pub struct Response {
    pub jsonrpc: TwoPointZero,
    pub payload: ResponsePayload,
    pub id: Id,
}

/// The view of a [`Response`].
pub struct ResponseView {
    pub payload: ResponsePayloadView,
    pub id: IdView,
}

impl View for Response {
    type V = ResponseView;

    open spec fn view(&self) -> ResponseView {
        ResponseView { payload: self.payload@, id: self.id@ }
    }
}

impl Clone for Response {
    fn clone(&self) -> (copy: Self)
        ensures
            copy@ == self@,
    {
        Response { jsonrpc: self.jsonrpc, payload: self.payload.clone(), id: self.id.clone() }
    }
}

/// A response that reports an error.
pub open spec fn error_response(id: IdView, error: ErrorDetailsView) -> ResponseView {
    ResponseView { payload: ResponsePayloadView::Error(error), id }
}

impl Response {
    /// Creates a response with the given payload.
    pub fn new(id: Id, payload: ResponsePayload) -> (response: Self)
        ensures
            response@ == (ResponseView { payload: payload@, id: id@ }),
            response.payload == payload,
            response.id == id,
    {
        Response { jsonrpc: TwoPointZero, payload, id }
    }

    /// Creates a response that reports success.
    pub fn success(id: Id, result: JsonValue) -> (response: Self)
        ensures
            response@ == (ResponseView {
                payload: ResponsePayloadView::Success(result@),
                id: id@,
            }),
            response.payload == ResponsePayload::Success(SuccessResponse { result }),
            response.id == id,
    {
        Self::new(id, ResponsePayload::success(result))
    }

    /// Creates a response that reports an error.
    pub fn error(id: Id, code: ErrorCode, message: String, data: Option<JsonValue>) -> (response:
        Self)
        ensures
            response@ == error_response(id@, details(code, message@, option_json(data))),
            response.payload == ResponsePayload::Error(
                ErrorResponse { error: ErrorDetails { code, message, data } },
            ),
            response.id == id,
    {
        Self::error_detail(id, ErrorDetails::new(code, message, data))
    }

    /// Creates a response that reports an error of which the details exist already.
    pub fn error_detail(id: Id, error: ErrorDetails) -> (response: Self)
        ensures
            response@ == error_response(id@, error@),
            response.payload == ResponsePayload::Error(ErrorResponse { error }),
            response.id == id,
    {
        Self::new(id, ResponsePayload::error(error))
    }
}

/// Everything that one peer can send to the other.
#[derive(Debug)]
pub enum Message {
    /// Several messages in one.
    Batch(Vec<Message>),
    /// A method call.
    Request(Request),
    /// A notification.
    Notification(Notification),
    /// The answer to an earlier method call.
    Response(Response),
    /// Something that has an id but is none of the above.
    InvalidRequest(InvalidRequest),
}

/// The view of a [`Message`].
pub enum MessageView {
    Batch(Seq<MessageView>),
    Request(RequestView),
    Notification(NotificationView),
    Response(ResponseView),
    InvalidRequest(IdView),
}

/// What `message` stands for.
pub open spec fn message_view(message: Message) -> MessageView
    decreases message,
{
    match message {
        Message::Batch(messages) => MessageView::Batch(
            Seq::new(
                messages@.len(),
                |i: int|
                    if 0 <= i < messages@.len() {
                        message_view(messages@[i])
                    } else {
                        MessageView::InvalidRequest(IdView::Null)
                    },
            ),
        ),
        Message::Request(request) => MessageView::Request(request@),
        Message::Notification(notification) => MessageView::Notification(notification@),
        Message::Response(response) => MessageView::Response(response@),
        Message::InvalidRequest(invalid) => MessageView::InvalidRequest(invalid.id@),
    }
}

impl View for Message {
    type V = MessageView;

    open spec fn view(&self) -> MessageView {
        message_view(*self)
    }
}

/// What a sequence of messages stands for.
pub open spec fn messages_view(messages: Seq<Message>) -> Seq<MessageView> {
    messages.map_values(|message: Message| message@)
}

/// What an optional message stands for.
pub open spec fn option_message(message: Option<Message>) -> Option<MessageView> {
    match message {
        Some(message) => Some(message@),
        None => None,
    }
}

/// The view of a batch is the batch of the views.
pub proof fn lemma_batch_view(messages: Vec<Message>)
    ensures
        Message::Batch(messages)@ == MessageView::Batch(messages_view(messages@)),
{
    assert(Message::Batch(messages)@->Batch_0 =~= messages_view(messages@));
}

/// Two ids stand for the same exactly where both are null, both are the same number, or both are the
/// same text.
pub proof fn law_ids_are_told_apart(id: Id, other: Id)
    ensures
        id@ == other@ <==> match (id, other) {
            (Id::Null, Id::Null) => true,
            (Id::Number(n), Id::Number(m)) => n == m,
            (Id::Str(s), Id::Str(t)) => s@ == t@,
            _ => false,
        },
        match id {
            Id::Null => id@ is Null,
            Id::Number(n) => id@ == IdView::Number(n),
            Id::Str(s) => id@ == IdView::Str(s@),
        },
        option_id(Some(id)) == Some(id@),
        option_id(None) is None,
{
}

/// What a method call and a notification stand for holds their method and their parameters, and of a
/// call the id.
pub proof fn law_calls_are_viewed_whole(request: Request, notification: Notification)
    ensures
        request@.id == request.id@,
        request@.method == request.method@,
        match request.params {
            Some(params) => request@.params == Some(params@),
            None => request@.params is None,
        },
        notification@.method == notification.method@,
        match notification.params {
            Some(params) => notification@.params == Some(params@),
            None => notification@.params is None,
        },
{
}

/// What a response stands for holds its id and either its result or the code, the message and the
/// data of its error.
pub proof fn law_responses_are_viewed_whole(response: Response)
    ensures
        response@.id == response.id@,
        response@.payload == response.payload@,
        match response.payload {
            ResponsePayload::Success(success) => response@.payload == ResponsePayloadView::Success(
                success.result@,
            ),
            ResponsePayload::Error(failure) => {
                &&& response@.payload matches ResponsePayloadView::Error(error)
                &&& error == failure.error@
                &&& error.code == failure.error.code
                &&& error.message == failure.error.message@
                &&& match failure.error.data {
                    Some(data) => error.data == Some(data@),
                    None => error.data is None,
                }
            },
        },
{
}

/// What a message stands for holds everything that is in the message; of a batch, each message in
/// its place.
pub proof fn law_messages_are_viewed_whole(message: Message)
    ensures
        match message {
            Message::Batch(messages) => {
                &&& message@ matches MessageView::Batch(views)
                &&& views.len() == messages@.len()
                &&& forall|i: int| 0 <= i < views.len() ==> #[trigger] views[i] == messages@[i]@
            },
            Message::Request(request) => message@ == MessageView::Request(request@),
            Message::Notification(notification) => message@ == MessageView::Notification(
                notification@,
            ),
            Message::Response(response) => message@ == MessageView::Response(response@),
            Message::InvalidRequest(invalid) => message@ == MessageView::InvalidRequest(
                invalid.id@,
            ),
        },
        option_message(Some(message)) == Some(message@),
        option_message(None) is None,
{
}

/// Messages stand for as many messages, each for its own.
pub proof fn law_each_message_is_viewed(messages: Seq<Message>)
    ensures
        messages_view(messages).len() == messages.len(),
        forall|i: int|
            0 <= i < messages.len() ==> #[trigger] messages_view(messages)[i] == messages[i]@,
{
}

/// Error details say the code, the message and the data that they are given, and a response that
/// reports an error says that error under the id that it is given.
pub proof fn law_errors_say_what_they_are_given(
    id: IdView,
    code: ErrorCode,
    message: Seq<char>,
    data: Option<Json>,
)
    ensures
        details(code, message, data).code == code,
        details(code, message, data).message == message,
        details(code, message, data).data == data,
        error_response(id, details(code, message, data)).id == id,
        error_response(id, details(code, message, data)).payload == ResponsePayloadView::Error(
            details(code, message, data),
        ),
{
}

/// Each number is read as a code that has this number, the numbers that the protocol reserves as the
/// codes that they are reserved for.
pub proof fn law_error_codes_have_their_numbers(number: i32)
    ensures
        ErrorCode::from_number(number).number() == number,
        ErrorCode::ParseError.number() == -32700,
        ErrorCode::InvalidRequest.number() == -32600,
        ErrorCode::MethodNotFound.number() == -32601,
        ErrorCode::InvalidParams.number() == -32602,
        ErrorCode::InternalError.number() == -32603,
        ErrorCode::OversizedRequest.number() == -32007,
        ErrorCode::ServerIsBusy.number() == -32009,
        ErrorCode::ServerError(number).number() == number,
        ErrorCode::from_number(number) is ServerError <==> number != -32700 && number != -32600
            && number != -32601 && number != -32602 && number != -32603 && number != -32007,
{
}

/// An id is shown as `null`, in decimal, or as its text; a code as its number and its description.
pub proof fn law_ids_and_codes_are_shown(n: u64, s: Seq<char>, code: ErrorCode)
    ensures
        IdView::Null.text() == "null"@,
        IdView::Number(n).text() == decimal(n as nat),
        IdView::Str(s).text() == s,
        code.text() == signed_decimal(code.number() as int) + ": "@ + code.description(),
        code.description() == match code {
            ErrorCode::ParseError => "Parse error"@,
            ErrorCode::OversizedRequest => "Request is too big"@,
            ErrorCode::InvalidRequest => "Invalid request"@,
            ErrorCode::MethodNotFound => "Method not found"@,
            ErrorCode::ServerIsBusy => "Server is busy, try again later"@,
            ErrorCode::InvalidParams => "Invalid params"@,
            ErrorCode::InternalError => "Internal error"@,
            ErrorCode::ServerError(_) => "Server error"@,
        },
{
}

/// Two ids compare as equal exactly where they stand for the same.
pub proof fn law_equal_ids_stand_for_the_same(id: Id, other: Id)
    ensures
        vstd::std_specs::cmp::PartialEqSpec::eq_spec(&id, &other) <==> id@ == other@,
{
}

/// What a success or a failure is made of is what it holds, and a number is turned into the code
/// that it is read as.
pub proof fn law_conversions_keep_what_they_are_given(
    result: JsonValue,
    error: ErrorDetails,
    number: i32,
)
    ensures
        <SuccessResponse as vstd::std_specs::convert::FromSpec<JsonValue>>::from_spec(result).result
            == result,
        <ErrorResponse as vstd::std_specs::convert::FromSpec<ErrorDetails>>::from_spec(error).error
            == error,
        <ErrorCode as vstd::std_specs::convert::FromSpec<i32>>::from_spec(number)
            == ErrorCode::from_number(number),
{
}

} // verus!
