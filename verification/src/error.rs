//! Errors, and what the remote peer is told of them.
use crate::json::{Json, JsonValue};
use crate::text::signed_decimal;
use crate::types::{details, ErrorCode, ErrorDetails, ErrorDetailsView};
use vstd::prelude::*;
use vstd::string::StringExecFns;

verus! {

/// Everything that can go wrong in a JSON-RPC client or server.
///
/// A `source` is the text of the underlying error.
#[derive(Debug)]
pub enum JsonRpcError {
    /// A text is not JSON, or not a message.
    ParseJson { source: String, json: String },
    /// A request could not be turned into JSON.
    SerRequest { source: String, type_label: &'static str },
    /// The parameters of a request do not fit the type that they are wanted as.
    DeserRequest { source: String, type_label: &'static str, request: JsonValue },
    /// A response could not be turned into JSON.
    SerResponse { source: String, type_label: &'static str },
    /// The result of a call does not fit the type that it is wanted as.
    DeserResponse { source: String, type_label: &'static str, response: JsonValue },
    /// The transport failed.
    Transport { source: String },
    /// The connection closed before the response came.
    PendingRequestConnectionClosed,
    /// The remote peer answered with an error.
    MethodError { method: String, error: ErrorDetails },
    /// The custom event loop failed.
    CustomEventLoopError { source: String },
    /// Someone asked for the operation to be cancelled.
    Cancelled,
    /// Something that cannot happen did.
    Bug { message: String },
    /// The batch that the call is part of was not sent yet.
    BatchNotSentYet,
    /// The batch that the call is part of could not be sent.
    BatchSendFailed,
}

/// The view of a [`JsonRpcError`].
pub enum JsonRpcErrorView {
    ParseJson { source: Seq<char>, json: Seq<char> },
    SerRequest { source: Seq<char>, type_label: Seq<char> },
    DeserRequest { source: Seq<char>, type_label: Seq<char>, request: Json },
    SerResponse { source: Seq<char>, type_label: Seq<char> },
    DeserResponse { source: Seq<char>, type_label: Seq<char>, response: Json },
    Transport { source: Seq<char> },
    PendingRequestConnectionClosed,
    MethodError { method: Seq<char>, error: ErrorDetailsView },
    CustomEventLoopError { source: Seq<char> },
    Cancelled,
    Bug { message: Seq<char> },
    BatchNotSentYet,
    BatchSendFailed,
}

impl View for JsonRpcError {
    type V = JsonRpcErrorView;

    open spec fn view(&self) -> JsonRpcErrorView {
        match self {
            JsonRpcError::ParseJson { source, json } => JsonRpcErrorView::ParseJson {
                source: source@,
                json: json@,
            },
            JsonRpcError::SerRequest { source, type_label } => JsonRpcErrorView::SerRequest {
                source: source@,
                type_label: type_label@,
            },
            JsonRpcError::DeserRequest { source, type_label, request } =>
                JsonRpcErrorView::DeserRequest {
                source: source@,
                type_label: type_label@,
                request: request@,
            },
            JsonRpcError::SerResponse { source, type_label } => JsonRpcErrorView::SerResponse {
                source: source@,
                type_label: type_label@,
            },
            JsonRpcError::DeserResponse { source, type_label, response } =>
                JsonRpcErrorView::DeserResponse {
                source: source@,
                type_label: type_label@,
                response: response@,
            },
            JsonRpcError::Transport { source } => JsonRpcErrorView::Transport { source: source@ },
            JsonRpcError::PendingRequestConnectionClosed =>
                JsonRpcErrorView::PendingRequestConnectionClosed,
            JsonRpcError::MethodError { method, error } => JsonRpcErrorView::MethodError {
                method: method@,
                error: error@,
            },
            JsonRpcError::CustomEventLoopError { source } =>
                JsonRpcErrorView::CustomEventLoopError { source: source@ },
            JsonRpcError::Cancelled => JsonRpcErrorView::Cancelled,
            JsonRpcError::Bug { message } => JsonRpcErrorView::Bug { message: message@ },
            JsonRpcError::BatchNotSentYet => JsonRpcErrorView::BatchNotSentYet,
            JsonRpcError::BatchSendFailed => JsonRpcErrorView::BatchSendFailed,
        }
    }
}

impl JsonRpcErrorView {
    /// The error as it is shown to people.
    pub open spec fn text(self) -> Seq<char> {
        match self {
            JsonRpcErrorView::ParseJson { .. } => "Error parsing JSON"@,
            JsonRpcErrorView::SerRequest { type_label, .. } => "Error serializing request "@
                + type_label + " to JSON"@,
            JsonRpcErrorView::DeserRequest { type_label, .. } =>
                "Error deserializing request JSON into "@ + type_label,
            JsonRpcErrorView::SerResponse { type_label, .. } => "Error serializing response "@
                + type_label + " to JSON"@,
            JsonRpcErrorView::DeserResponse { type_label, .. } =>
                "Error deserializing response JSON into "@ + type_label,
            JsonRpcErrorView::Transport { .. } => "Transport error"@,
            JsonRpcErrorView::PendingRequestConnectionClosed =>
                "Operation canceled because the connection closed before a response was received"@,
            JsonRpcErrorView::MethodError { method, error } => "The method '"@ + method
                + "' failed with an error "@ + error.code.text() + ": "@ + error.message,
            JsonRpcErrorView::CustomEventLoopError { .. } =>
                "Custom event loop handler reported an error"@,
            JsonRpcErrorView::Cancelled => "Operation was cancelled by request"@,
            JsonRpcErrorView::Bug { message } => "BUG: "@ + message,
            JsonRpcErrorView::BatchNotSentYet => "Batch has not been sent yet"@,
            JsonRpcErrorView::BatchSendFailed =>
                "Call failed because the batch request it was part of failed to send"@,
        }
    }

    /// What the remote peer is told of the error.
    ///
    /// It is told little of what happens inside this peer.
    pub open spec fn told(self) -> ErrorDetailsView {
        match self {
            JsonRpcErrorView::ParseJson { .. } => details(
                ErrorCode::ParseError,
                "Invalid JSON"@,
                None,
            ),
            JsonRpcErrorView::DeserRequest { request, .. } => details(
                ErrorCode::InvalidRequest,
                "Invalid request"@,
                Some(Json::Object(seq![("bad_json"@, request)])),
            ),
            JsonRpcErrorView::SerResponse { .. } => details(
                ErrorCode::InternalError,
                "Error serializing response"@,
                None,
            ),
            JsonRpcErrorView::Transport { .. } => details(
                ErrorCode::InternalError,
                "Transport error"@,
                None,
            ),
            JsonRpcErrorView::MethodError { error, .. } => error,
            JsonRpcErrorView::Bug { .. } => details(
                ErrorCode::InternalError,
                "Unexpected internal error"@,
                None,
            ),
            _ => details(ErrorCode::InternalError, self.text(), None),
        }
    }
}

fn joined(first: &str, second: &str, third: &str) -> (text: String)
    ensures
        text@ == first@ + second@ + third@,
{
    let mut text = first.to_string();
    text.append(second);
    text.append(third);
    text
}

impl JsonRpcError {
    /// Shows the error.
    pub fn to_text(&self) -> (text: String)
        ensures
            text@ == self@.text(),
    {
        proof {
            reveal_strlit("");
        }
        match self {
            JsonRpcError::ParseJson { .. } => "Error parsing JSON".to_string(),
            JsonRpcError::SerRequest { type_label, .. } => joined(
                "Error serializing request ",
                type_label,
                " to JSON",
            ),
            JsonRpcError::DeserRequest { type_label, .. } => joined(
                "Error deserializing request JSON into ",
                type_label,
                "",
            ),
            JsonRpcError::SerResponse { type_label, .. } => joined(
                "Error serializing response ",
                type_label,
                " to JSON",
            ),
            JsonRpcError::DeserResponse { type_label, .. } => joined(
                "Error deserializing response JSON into ",
                type_label,
                "",
            ),
            JsonRpcError::Transport { .. } => "Transport error".to_string(),
            JsonRpcError::PendingRequestConnectionClosed =>
                "Operation canceled because the connection closed before a response was received".to_string(),
            JsonRpcError::MethodError { method, error } => {
                let mut text = joined("The method '", method.as_str(), "' failed with an error ");
                text.append(error.code.to_text().as_str());
                text.append(": ");
                text.append(error.message.as_str());
                text
            },
            JsonRpcError::CustomEventLoopError { .. } =>
                "Custom event loop handler reported an error".to_string(),
            JsonRpcError::Cancelled => "Operation was cancelled by request".to_string(),
            JsonRpcError::Bug { message } => joined("BUG: ", message.as_str(), ""),
            JsonRpcError::BatchNotSentYet => "Batch has not been sent yet".to_string(),
            JsonRpcError::BatchSendFailed =>
                "Call failed because the batch request it was part of failed to send".to_string(),
        }
    }
}

impl From<JsonRpcError> for ErrorDetails {
    /// Tells of an error what may be told to the remote peer.
    fn from(error: JsonRpcError) -> (told: Self)
        ensures
            told@ == error@.told(),
    {
        match error {
            JsonRpcError::ParseJson { .. } => ErrorDetails::parse_error(
                "Invalid JSON".to_string(),
                None,
            ),
            JsonRpcError::DeserRequest { request, .. } => ErrorDetails::invalid_request(
                "Invalid request".to_string(),
                Some(JsonValue::object_of("bad_json", request)),
            ),
            JsonRpcError::SerResponse { .. } => ErrorDetails::internal_error(
                "Error serializing response".to_string(),
                None,
            ),
            JsonRpcError::Transport { .. } => ErrorDetails::internal_error(
                "Transport error".to_string(),
                None,
            ),
            JsonRpcError::MethodError { error, .. } => error,
            JsonRpcError::Bug { .. } => ErrorDetails::internal_error(
                "Unexpected internal error".to_string(),
                None,
            ),
            other => ErrorDetails::internal_error(other.to_text(), None),
        }
    }
}

impl vstd::std_specs::convert::FromSpecImpl<JsonRpcError> for ErrorDetails {
    open spec fn obeys_from_spec() -> bool {
        false
    }

    open spec fn from_spec(error: JsonRpcError) -> Self {
        arbitrary()
    }
}

/// What a panic left behind.
#[derive(Debug)]
pub enum PanicPayload {
    /// A message that was part of the program's text.
    Literal(&'static str),
    /// A message that was made at run time.
    Text(String),
    /// A value of some other type.
    Other { type_label: String, type_id: String },
}

/// What a panic is shown as.
pub open spec fn panic_text(payload: PanicPayload) -> Seq<char> {
    match payload {
        PanicPayload::Literal(text) => text@,
        PanicPayload::Text(text) => text@,
        PanicPayload::Other { type_label, type_id } => "Panic of type "@ + type_label@
            + " (type ID "@ + type_id@ + ")"@,
    }
}

/// Makes something readable of what a panic left behind.
pub fn panic_err_to_string(payload: PanicPayload) -> (text: String)
    ensures
        text@ == panic_text(payload),
{
    match payload {
        PanicPayload::Literal(text) => text.to_string(),
        PanicPayload::Text(text) => text,
        PanicPayload::Other { type_label, type_id } => {
            let mut text = joined("Panic of type ", type_label.as_str(), " (type ID ");
            text.append(type_id.as_str());
            text.append(")");
            text
        },
    }
}

/// What an error stands for is an error of the same kind, with everything that the error holds.
pub proof fn law_errors_are_viewed_whole(error: JsonRpcError)
    ensures
        match (error, error@) {
            (
                JsonRpcError::ParseJson { source, json },
                JsonRpcErrorView::ParseJson { source: s, json: j },
            ) => s == source@ && j == json@,
            (
                JsonRpcError::SerRequest { source, type_label },
                JsonRpcErrorView::SerRequest { source: s, type_label: l },
            ) => s == source@ && l == type_label@,
            (
                JsonRpcError::DeserRequest { source, type_label, request },
                JsonRpcErrorView::DeserRequest { source: s, type_label: l, request: r },
            ) => s == source@ && l == type_label@ && r == request@,
            (
                JsonRpcError::SerResponse { source, type_label },
                JsonRpcErrorView::SerResponse { source: s, type_label: l },
            ) => s == source@ && l == type_label@,
            (
                JsonRpcError::DeserResponse { source, type_label, response },
                JsonRpcErrorView::DeserResponse { source: s, type_label: l, response: r },
            ) => s == source@ && l == type_label@ && r == response@,
            (
                JsonRpcError::Transport { source },
                JsonRpcErrorView::Transport { source: s },
            ) => s == source@,
            (
                JsonRpcError::MethodError { method, error },
                JsonRpcErrorView::MethodError { method: m, error: e },
            ) => m == method@ && e == error@,
            (
                JsonRpcError::CustomEventLoopError { source },
                JsonRpcErrorView::CustomEventLoopError { source: s },
            ) => s == source@,
            (JsonRpcError::Bug { message }, JsonRpcErrorView::Bug { message: m }) => m == message@,
            (
                JsonRpcError::PendingRequestConnectionClosed,
                JsonRpcErrorView::PendingRequestConnectionClosed,
            ) => true,
            (JsonRpcError::Cancelled, JsonRpcErrorView::Cancelled) => true,
            (JsonRpcError::BatchNotSentYet, JsonRpcErrorView::BatchNotSentYet) => true,
            (JsonRpcError::BatchSendFailed, JsonRpcErrorView::BatchSendFailed) => true,
            _ => false,
        },
{
}

/// What the remote peer is told of an error: that a text is no JSON, that parameters do not fit and
/// which, an error of a method as it is, and of all else only that there was an internal error.
pub proof fn law_peer_is_told_what_went_wrong(error: JsonRpcErrorView)
    ensures
        match error {
            JsonRpcErrorView::ParseJson { .. } => {
                &&& error.told().code == ErrorCode::ParseError
                &&& error.told().message == "Invalid JSON"@
                &&& error.told().data is None
            },
            JsonRpcErrorView::DeserRequest { request, .. } => {
                &&& error.told().code == ErrorCode::InvalidRequest
                &&& error.told().message == "Invalid request"@
                &&& error.told().data matches Some(Json::Object(members))
                &&& members.len() == 1
                &&& members[0] == ("bad_json"@, request)
            },
            JsonRpcErrorView::MethodError { error: reported, .. } => error.told() == reported,
            _ => {
                &&& error.told().code == ErrorCode::InternalError
                &&& error.told().data is None
            },
        },
{
}

/// Of what happens inside this peer the remote peer is not told the details: neither why a response
/// could not be written, nor why the transport failed, nor what the defect is.
pub proof fn law_peer_is_told_no_details(
    source: Seq<char>,
    other: Seq<char>,
    type_label: Seq<char>,
    other_label: Seq<char>,
)
    ensures
        (JsonRpcErrorView::SerResponse { source, type_label }).told() == (
        JsonRpcErrorView::SerResponse { source: other, type_label: other_label }).told(),
        (JsonRpcErrorView::SerResponse { source, type_label }).told().message
            == "Error serializing response"@,
        (JsonRpcErrorView::Transport { source }).told() == (JsonRpcErrorView::Transport {
            source: other,
        }).told(),
        (JsonRpcErrorView::Transport { source }).told().message == "Transport error"@,
        (JsonRpcErrorView::Bug { message: source }).told() == (JsonRpcErrorView::Bug {
            message: other,
        }).told(),
        (JsonRpcErrorView::Bug { message: source }).told().message == "Unexpected internal error"@,
        (JsonRpcErrorView::CustomEventLoopError { source }).told() == (
        JsonRpcErrorView::CustomEventLoopError { source: other }).told(),
{
}

/// Of the errors that say no more than what kind of error they are, the remote peer is told what
/// people are shown.
pub proof fn law_peer_is_told_what_is_shown(error: JsonRpcErrorView)
    requires
        error is SerRequest || error is DeserResponse || error is PendingRequestConnectionClosed
            || error is CustomEventLoopError || error is Cancelled || error is BatchNotSentYet
            || error is BatchSendFailed,
    ensures
        error.told().message == error.text(),
{
}

/// The error of a method is shown with the method, the code and the message; one of a type with the
/// name of the type; a defect with what it is; and all others with what kind of error they are.
pub proof fn law_errors_show_what_they_are_about(error: JsonRpcErrorView)
    ensures
        match error {
            JsonRpcErrorView::ParseJson { .. } => error.text() == "Error parsing JSON"@,
            JsonRpcErrorView::SerRequest { type_label, .. } => error.text()
                == "Error serializing request "@ + type_label + " to JSON"@,
            JsonRpcErrorView::DeserRequest { type_label, .. } => error.text()
                == "Error deserializing request JSON into "@ + type_label,
            JsonRpcErrorView::SerResponse { type_label, .. } => error.text()
                == "Error serializing response "@ + type_label + " to JSON"@,
            JsonRpcErrorView::DeserResponse { type_label, .. } => error.text()
                == "Error deserializing response JSON into "@ + type_label,
            JsonRpcErrorView::Transport { .. } => error.text() == "Transport error"@,
            JsonRpcErrorView::PendingRequestConnectionClosed => error.text()
                == "Operation canceled because the connection closed before a response was received"@,
            JsonRpcErrorView::MethodError { method, error: reported } => error.text()
                == "The method '"@ + method + "' failed with an error "@ + signed_decimal(
                reported.code.number() as int,
            ) + ": "@ + reported.code.description() + ": "@ + reported.message,
            JsonRpcErrorView::CustomEventLoopError { .. } => error.text()
                == "Custom event loop handler reported an error"@,
            JsonRpcErrorView::Cancelled => error.text() == "Operation was cancelled by request"@,
            JsonRpcErrorView::Bug { message } => error.text() == "BUG: "@ + message,
            JsonRpcErrorView::BatchNotSentYet => error.text() == "Batch has not been sent yet"@,
            JsonRpcErrorView::BatchSendFailed => error.text()
                == "Call failed because the batch request it was part of failed to send"@,
        },
{
    if let JsonRpcErrorView::MethodError { method, error: reported } = error {
        assert(error.text() =~= "The method '"@ + method + "' failed with an error "@
            + signed_decimal(reported.code.number() as int) + ": "@ + reported.code.description()
            + ": "@ + reported.message);
    }
}

/// A panic with a message is shown as that message, and any other with the type and its identifier.
pub proof fn law_panics_show_what_they_left(payload: PanicPayload)
    ensures
        match payload {
            PanicPayload::Literal(text) => panic_text(payload) == text@,
            PanicPayload::Text(text) => panic_text(payload) == text@,
            PanicPayload::Other { type_label, type_id } => panic_text(payload) == "Panic of type "@
                + type_label@ + " (type ID "@ + type_id@ + ")"@,
        },
{
}

} // verus!
