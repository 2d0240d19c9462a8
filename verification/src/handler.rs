//! What handlers of methods and notifications get from an invocation, and what becomes of what
//! they return.
use crate::error::{JsonRpcError, JsonRpcErrorView};
use crate::json::{option_json, Json as JsonView, JsonValue};
use crate::types::{
    details, option_id, ErrorCode, ErrorDetails, Id, IdView, Notification, Request,
    ResponsePayload, ResponsePayloadView,
};
use vstd::prelude::*;

verus! {

/// The invocation of a handler: a method call has an id, a notification has none.
#[derive(Debug)]
pub struct InvocationRequest {
    pub id: Option<Id>,
    pub method: String,
    pub params: Option<JsonValue>,
}

/// The view of an [`InvocationRequest`].
pub struct InvocationView {
    pub id: Option<IdView>,
    pub method: Seq<char>,
    pub params: Option<JsonView>,
}

impl View for InvocationRequest {
    type V = InvocationView;

    open spec fn view(&self) -> InvocationView {
        InvocationView {
            id: option_id(self.id),
            method: self.method@,
            params: option_json(self.params),
        }
    }
}

impl InvocationRequest {
    /// Makes the invocation of a method call.
    pub fn from_request_message(request: Request) -> (invocation: Self)
        ensures
            invocation == (InvocationRequest {
                id: Some(request.id),
                method: request.method,
                params: request.params,
            }),
    {
        InvocationRequest { id: Some(request.id), method: request.method, params: request.params }
    }

    /// Makes the invocation of a notification.
    pub fn from_notification_message(notification: Notification) -> (invocation: Self)
        ensures
            invocation == (InvocationRequest {
                id: None,
                method: notification.method,
                params: notification.params,
            }),
    {
        InvocationRequest {
            id: None,
            method: notification.method,
            params: notification.params,
        }
    }

    /// Returns the parameters; where they were left out they are null.
    pub fn json_params(&self) -> (params: JsonValue)
        ensures
            params@ == match option_json(self.params) {
                Some(params) => params,
                None => JsonView::Null,
            },
    {
        match &self.params {
            Some(params) => params.clone(),
            None => JsonValue::Null,
        }
    }
}

/// Implemented by everything that can be turned into the payload of a response.
pub trait IntoResponse: Sized {
    fn into_response(self) -> ResponsePayload;
}

impl IntoResponse for JsonValue {
    /// A JSON value is a result.
    fn into_response(self) -> (payload: ResponsePayload)
        ensures
            payload@ == ResponsePayloadView::Success(self@),
    {
        ResponsePayload::success(self)
    }
}

impl IntoResponse for JsonRpcError {
    /// Of an error, the remote peer is told what it may be told.
    fn into_response(self) -> (payload: ResponsePayload)
        ensures
            payload@ == ResponsePayloadView::Error(self@.told()),
    {
        ResponsePayload::error(ErrorDetails::from(self))
    }
}

impl IntoResponse for ErrorDetails {
    /// Error details are what the remote peer is told.
    fn into_response(self) -> (payload: ResponsePayload)
        ensures
            payload@ == ResponsePayloadView::Error(self@),
    {
        ResponsePayload::error(self)
    }
}

/// A value that was turned into JSON, or the reason why it could not be.
pub struct Serialized {
    pub json: Result<JsonValue, String>,
    /// The name of the value's type.
    pub type_label: &'static str,
}

/// The payload that stands for a value that was turned into JSON or could not be.
pub open spec fn serialized_payload(value: Serialized) -> ResponsePayloadView {
    match value.json {
        Ok(json) => ResponsePayloadView::Success(json@),
        Err(source) => ResponsePayloadView::Error(
            (JsonRpcErrorView::SerResponse {
                source: source@,
                type_label: value.type_label@,
            }).told(),
        ),
    }
}

impl ResponsePayload {
    /// Creates a payload that reports success or, where the value could not be turned into JSON,
    /// failure.
    pub fn serialize_to_success(value: Serialized) -> (payload: Self)
        ensures
            payload@ == serialized_payload(value),
    {
        match value.json {
            Ok(json) => ResponsePayload::success(json),
            Err(source) => ResponsePayload::error(
                ErrorDetails::from(
                    JsonRpcError::SerResponse { source, type_label: value.type_label },
                ),
            ),
        }
    }
}

impl IntoResponse for Serialized {
    fn into_response(self) -> (payload: ResponsePayload)
        ensures
            payload@ == serialized_payload(self),
    {
        ResponsePayload::serialize_to_success(self)
    }
}

impl IntoResponse for Result<Serialized, ErrorDetails> {
    /// A handler that can fail reports its value or its error.
    fn into_response(self) -> (payload: ResponsePayload)
        ensures
            payload@ == match self {
                Ok(value) => serialized_payload(value),
                Err(error) => ResponsePayloadView::Error(error@),
            },
    {
        match self {
            Ok(value) => ResponsePayload::serialize_to_success(value),
            Err(error) => ResponsePayload::error(error),
        }
    }
}

/// Implemented by everything that a handler can ask for as an argument.
pub trait FromRequest<S>: Sized {
    /// What the caller gets in place of a result where the argument cannot be had.
    type Rejection: IntoResponse;

    fn from_request(request: &InvocationRequest, state: &S) -> Result<Self, Self::Rejection>;
}

/// The parameters of an invocation as an argument.
pub struct Json<T>(pub T);

impl<S> FromRequest<S> for Json<JsonValue> {
    type Rejection = JsonRpcError;

    /// The parameters as they are; null where they were left out.
    fn from_request(request: &InvocationRequest, state: &S) -> (result: Result<
        Self,
        JsonRpcError,
    >)
        ensures
            result matches Ok(Json(params)) && params@ == match option_json(request.params) {
                Some(params) => params,
                None => JsonView::Null,
            },
    {
        Ok(Json(request.json_params()))
    }
}

/// The parameters of an invocation, read as a type; or why they cannot be.
pub fn extracted_params<T>(params: JsonValue, parsed: Result<T, String>, type_label: &'static str) -> (
result: Result<Json<T>, JsonRpcError>)
    ensures
        match parsed {
            Ok(value) => result == Ok::<Json<T>, JsonRpcError>(Json(value)),
            Err(source) => result == Err::<Json<T>, JsonRpcError>(
                JsonRpcError::DeserRequest { source, type_label, request: params },
            ),
        },
{
    match parsed {
        Ok(value) => Ok(Json(value)),
        Err(source) => Err(JsonRpcError::DeserRequest { source, type_label, request: params }),
    }
}

/// The state that all handlers share, as an argument.
pub struct State<S: Clone>(pub S);

impl<S: Clone> FromRequest<S> for State<S> {
    type Rejection = ErrorDetails;

    /// A clone of the state; it can always be had.
    fn from_request(request: &InvocationRequest, state: &S) -> (result: Result<Self, ErrorDetails>)
        ensures
            result matches Ok(State(copy)) && cloned(*state, copy),
    {
        Ok(State(state.clone()))
    }
}

impl<S> FromRequest<S> for Option<Id> {
    type Rejection = ErrorDetails;

    /// The id, if there is one; a notification is not rejected.
    fn from_request(request: &InvocationRequest, state: &S) -> (result: Result<Self, ErrorDetails>)
        ensures
            result matches Ok(id) && option_id(id) == option_id(request.id),
    {
        Ok(
            match &request.id {
                Some(id) => Some(id.clone()),
                None => None,
            },
        )
    }
}

impl<S> FromRequest<S> for Id {
    type Rejection = ErrorDetails;

    /// The id; a notification has none and is rejected.
    fn from_request(request: &InvocationRequest, state: &S) -> (result: Result<Self, ErrorDetails>)
        ensures
            match result {
                Ok(id) => option_id(request.id) == Some(id@),
                Err(error) => request.id is None && error@ == details(
                    ErrorCode::InvalidParams,
                    "This method cannot be invoked as a notification"@,
                    None,
                ),
            },
    {
        match &request.id {
            Some(id) => Ok(id.clone()),
            None => Err(
                ErrorDetails::invalid_params(
                    "This method cannot be invoked as a notification".to_string(),
                    None,
                ),
            ),
        }
    }
}

/// The name of the method, as an argument.
#[derive(Debug)]
pub struct MethodName(pub String);

impl<S> FromRequest<S> for MethodName {
    type Rejection = ErrorDetails;

    /// The name; it can always be had.
    fn from_request(request: &InvocationRequest, state: &S) -> (result: Result<Self, ErrorDetails>)
        ensures
            result matches Ok(MethodName(method)) && method@ == request.method@,
    {
        Ok(MethodName(request.method.clone()))
    }
}

/// How a handler was invoked, as an argument.
#[derive(Clone, Copy, Debug, PartialEq, Eq, Structural)]
pub enum InvocationType {
    /// By a method call.
    Method,
    /// By a notification.
    Notification,
}

impl<S> FromRequest<S> for InvocationType {
    type Rejection = ErrorDetails;

    /// How it was; that can always be had.
    fn from_request(request: &InvocationRequest, state: &S) -> (result: Result<Self, ErrorDetails>)
        ensures
            result == Ok::<InvocationType, ErrorDetails>(
                if request.id is Some {
                    InvocationType::Method
                } else {
                    InvocationType::Notification
                },
            ),
    {
        if request.id.is_some() {
            Ok(InvocationType::Method)
        } else {
            Ok(InvocationType::Notification)
        }
    }
}

/// `payload` is what comes of an argument that was rejected.
pub open spec fn is_rejection<S, T: FromRequest<S>>(
    request: InvocationRequest,
    state: S,
    payload: ResponsePayload,
) -> bool {
    exists|rejection: T::Rejection| #[trigger]
        call_ensures(T::from_request, (&request, &state), Err::<T, T::Rejection>(rejection))
            && call_ensures(T::Rejection::into_response, (rejection,), payload)
}

/// `value` is an argument that was not rejected.
pub open spec fn is_extracted<S, T: FromRequest<S>>(
    request: InvocationRequest,
    state: S,
    value: T,
) -> bool {
    call_ensures(T::from_request, (&request, &state), Ok::<T, T::Rejection>(value))
}

/// Takes one argument of a handler from an invocation, or returns what the caller gets in place of a
/// result.
pub fn extract<S, T: FromRequest<S>>(request: &InvocationRequest, state: &S) -> (result: Result<
    T,
    ResponsePayload,
>)
    ensures
        match result {
            Ok(value) => is_extracted::<S, T>(*request, *state, value),
            Err(payload) => is_rejection::<S, T>(*request, *state, payload),
        },
{
    match T::from_request(request, state) {
        Ok(value) => Ok(value),
        Err(rejection) => Err(rejection.into_response()),
    }
}

/// Takes the argument of a handler from an invocation, or returns what the caller gets in place of
/// a result.
pub fn extract_method_arg<S, T: FromRequest<S>>(request: &InvocationRequest, state: &S) -> (result:
    Result<(T,), ResponsePayload>)
    ensures
        match result {
            Ok((value,)) => is_extracted::<S, T>(*request, *state, value),
            Err(payload) => is_rejection::<S, T>(*request, *state, payload),
        },
{
    match extract::<S, T>(request, state) {
        Ok(value) => Ok((value,)),
        Err(payload) => Err(payload),
    }
}

/// Takes the two arguments of a handler from an invocation, or returns what the caller gets in
/// place of a result: what came of the first argument that was rejected.
pub fn extract_method_args<S, T: FromRequest<S>, U: FromRequest<S>>(
    request: &InvocationRequest,
    state: &S,
) -> (result: Result<(T, U), ResponsePayload>)
    ensures
        match result {
            Ok((first, second)) => {
                &&& is_extracted::<S, T>(*request, *state, first)
                &&& is_extracted::<S, U>(*request, *state, second)
            },
            Err(payload) => {
                ||| is_rejection::<S, T>(*request, *state, payload)
                ||| {
                    &&& exists|first: T| is_extracted::<S, T>(*request, *state, first)
                    &&& is_rejection::<S, U>(*request, *state, payload)
                }
            },
        },
{
    let first = match extract::<S, T>(request, state) {
        Ok(value) => value,
        Err(payload) => {
            return Err(payload);
        },
    };
    match extract::<S, U>(request, state) {
        Ok(second) => Ok((first, second)),
        Err(payload) => Err(payload),
    }
}

/// Takes the three arguments of a handler from an invocation, or returns what the caller gets in
/// place of a result: what came of the first argument that was rejected.
pub fn extract_three_method_args<S, T: FromRequest<S>, U: FromRequest<S>, V: FromRequest<S>>(
    request: &InvocationRequest,
    state: &S,
) -> (result: Result<(T, U, V), ResponsePayload>)
    ensures
        match result {
            Ok((first, second, third)) => {
                &&& is_extracted::<S, T>(*request, *state, first)
                &&& is_extracted::<S, U>(*request, *state, second)
                &&& is_extracted::<S, V>(*request, *state, third)
            },
            Err(payload) => {
                ||| is_rejection::<S, T>(*request, *state, payload)
                ||| {
                    &&& exists|first: T| is_extracted::<S, T>(*request, *state, first)
                    &&& is_rejection::<S, U>(*request, *state, payload)
                }
                ||| {
                    &&& exists|first: T| is_extracted::<S, T>(*request, *state, first)
                    &&& exists|second: U| is_extracted::<S, U>(*request, *state, second)
                    &&& is_rejection::<S, V>(*request, *state, payload)
                }
            },
        },
{
    let (first, second) = match extract_method_args::<S, T, U>(request, state) {
        Ok(values) => values,
        Err(payload) => {
            return Err(payload);
        },
    };
    match extract::<S, V>(request, state) {
        Ok(third) => Ok((first, second, third)),
        Err(payload) => Err(payload),
    }
}

/// What an invocation stands for holds its id, if it has one, its method and its parameters.
pub proof fn law_invocations_are_viewed_whole(request: InvocationRequest)
    ensures
        match request.id {
            Some(id) => request@.id == Some(id@),
            None => request@.id is None,
        },
        request@.method == request.method@,
        match request.params {
            Some(params) => request@.params == Some(params@),
            None => request@.params is None,
        },
{
}

/// A value that was turned into JSON is reported as that JSON; one that could not be is reported as
/// an internal error that says so and no more.
pub proof fn law_values_are_reported_as_their_json(
    json: JsonValue,
    source: String,
    type_label: &'static str,
)
    ensures
        serialized_payload(Serialized { json: Ok(json), type_label })
            == ResponsePayloadView::Success(json@),
        serialized_payload(Serialized { json: Err(source), type_label }) matches
            ResponsePayloadView::Error(error) && error.code == ErrorCode::InternalError
            && error.message == "Error serializing response"@ && error.data is None,
{
}

/// An argument that a handler gets is what its type gives for the invocation and the state; what
/// the caller gets in place of a result is what the rejection of an argument is turned into.
pub proof fn law_arguments_are_what_their_types_give<S, T: FromRequest<S>>(
    request: InvocationRequest,
    state: S,
    value: T,
    payload: ResponsePayload,
)
    ensures
        is_extracted::<S, T>(request, state, value) ==> call_ensures(
            T::from_request,
            (&request, &state),
            Ok::<T, T::Rejection>(value),
        ),
        is_rejection::<S, T>(request, state, payload) ==> exists|rejection: T::Rejection|
            #[trigger]
            call_ensures(T::from_request, (&request, &state), Err::<T, T::Rejection>(rejection))
                && call_ensures(T::Rejection::into_response, (rejection,), payload),
{
}

/// The name of the method, the kind of the invocation, the id if there is one, and the parameters
/// as they are can always be had, and are those of the invocation.
pub proof fn law_plain_arguments_are_those_of_the_invocation<S>(
    request: InvocationRequest,
    state: S,
    name: MethodName,
    kind: InvocationType,
    id: Option<Id>,
    params: Json<JsonValue>,
    payload: ResponsePayload,
)
    ensures
        is_extracted::<S, MethodName>(request, state, name) ==> name.0@ == request.method@,
        !is_rejection::<S, MethodName>(request, state, payload),
        is_extracted::<S, InvocationType>(request, state, kind) ==> (kind
            == InvocationType::Method <==> request.id is Some),
        !is_rejection::<S, InvocationType>(request, state, payload),
        is_extracted::<S, Option<Id>>(request, state, id) ==> match (id, request.id) {
            (Some(given), Some(own)) => given@ == own@,
            (None, None) => true,
            _ => false,
        },
        !is_rejection::<S, Option<Id>>(request, state, payload),
        is_extracted::<S, Json<JsonValue>>(request, state, params) ==> match request.params {
            Some(own) => params.0@ == own@,
            None => params.0@ is Null,
        },
        !is_rejection::<S, Json<JsonValue>>(request, state, payload),
{
}

/// A handler that asks for the id gets that of the call; for a notification it is not run, and what
/// comes of that is an error that says so.
pub proof fn law_id_argument_is_that_of_the_call<S>(
    request: InvocationRequest,
    state: S,
    id: Id,
    payload: ResponsePayload,
)
    ensures
        is_extracted::<S, Id>(request, state, id) ==> (request.id matches Some(own) && own@
            == id@),
        is_rejection::<S, Id>(request, state, payload) ==> {
            &&& request.id is None
            &&& payload@ matches ResponsePayloadView::Error(error)
            &&& error.code == ErrorCode::InvalidParams
            &&& error.message == "This method cannot be invoked as a notification"@
            &&& error.data is None
        },
{
}

/// A handler that asks for the state gets a clone of it, always.
pub proof fn law_state_argument_is_a_clone_of_the_state<S: Clone>(
    request: InvocationRequest,
    state: S,
    given: State<S>,
    payload: ResponsePayload,
)
    ensures
        is_extracted::<S, State<S>>(request, state, given) ==> cloned(state, given.0),
        !is_rejection::<S, State<S>>(request, state, payload),
{
}

} // verus!
