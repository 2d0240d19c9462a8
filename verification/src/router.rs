//! Finding the handler for a method call or a notification, and making the response of what the
//! handler returns.
//!
//! `H` is a handler; the router keeps handlers and hands them out, and does not run them.
use crate::handler::{InvocationRequest, InvocationView};
use crate::types::{
    details, error_response, option_id, ErrorCode, ErrorDetails, ErrorDetailsView, Id, IdView,
    Response, ResponsePayload, ResponsePayloadView, ResponseView,
};
use vstd::hash_map::StringHashMap;
use vstd::prelude::*;
use vstd::string::StringExecFns;

verus! {

/// Routes invocations by the name of the method.
#[verifier::reject_recursive_types(H)]
pub struct Router<S, H> {
    state: S,
    fallback_handler: Option<H>,
    handlers: StringHashMap<H>,
}

/// The view of a [`Router`].
#[verifier::ext_equal]
#[verifier::reject_recursive_types(H)]
pub struct RouterView<S, H> {
    /// What all handlers share.
    pub state: S,
    /// Handles what no other handler is registered for.
    pub fallback: Option<H>,
    /// The handlers by the name of their method.
    pub handlers: Map<Seq<char>, H>,
}

impl<S, H> View for Router<S, H> {
    type V = RouterView<S, H>;

    closed spec fn view(&self) -> RouterView<S, H> {
        RouterView {
            state: self.state,
            fallback: self.fallback_handler,
            handlers: self.handlers@,
        }
    }
}

/// Where an invocation goes.
pub enum Dispatch<'a, S, H> {
    /// To this handler, with a clone of this state, as a method call or as a notification.
    Call { handler: &'a H, state: &'a S, as_method: bool },
    /// Nowhere; this is its outcome.
    Answer(ResponsePayload),
}

/// What is said of a method that nothing is registered for.
///
/// Of a notification nobody ever hears it.
pub open spec fn unknown_method(request: InvocationView) -> ErrorDetailsView {
    details(
        ErrorCode::MethodNotFound,
        if request.id is Some {
            "Unknown method '"@ + request.method + "'"@
        } else {
            "Unknown notification"@
        },
        None,
    )
}

fn fallback_handler(request: &InvocationRequest) -> (error: ErrorDetails)
    ensures
        error@ == unknown_method(request@),
{
    if request.id.is_some() {
        let mut message = "Unknown method '".to_string();
        message.append(request.method.as_str());
        message.append("'");
        ErrorDetails::method_not_found(message, None)
    } else {
        ErrorDetails::method_not_found("Unknown notification".to_string(), None)
    }
}

/// A router to which nothing was registered yet.
pub open spec fn new_router<S, H>(state: S) -> RouterView<S, H> {
    RouterView { state, fallback: None, handlers: Map::empty() }
}

impl<H> Router<(), H> {
    /// Creates a router of which the handlers share no state.
    pub fn new_stateless() -> (router: Self)
        ensures
            router@ == new_router::<(), H>(()),
    {
        Router { state: (), fallback_handler: None, handlers: StringHashMap::new() }
    }
}

impl<S, H> Router<S, H> {
    /// Creates a router of which the handlers share `state`.
    pub fn new_with_state(state: S) -> (router: Self)
        ensures
            router@ == new_router::<S, H>(state),
    {
        Router { state, fallback_handler: None, handlers: StringHashMap::new() }
    }

    /// Returns the state that all handlers share.
    pub fn state(&self) -> (state: &S)
        ensures
            *state == self@.state,
    {
        &self.state
    }

    /// Returns what handles everything that no other handler is registered for.
    pub fn fallback(&self) -> (fallback: Option<&H>)
        ensures
            option_handler(fallback) == self@.fallback,
    {
        self.fallback_handler.as_ref()
    }

    /// Registers what handles everything that no other handler is registered for.
    pub fn register_fallback_handler(&mut self, handler: H)
        ensures
            final(self)@ == (RouterView { fallback: Some(handler), ..old(self)@ }),
    {
        self.fallback_handler = Some(handler);
    }

    /// Registers the handler of a method, in place of the one that was registered for it before.
    pub fn register_handler(&mut self, method: String, handler: H)
        ensures
            final(self)@ == (RouterView {
                handlers: old(self)@.handlers.insert(method@, handler),
                ..old(self)@
            }),
    {
        self.handlers.insert(method, handler);
    }

    /// Finds where an invocation goes.
    ///
    /// The handler of the method, or else what handles everything that no other handler is
    /// registered for, gets it as what it is: a method call or a notification.
    pub fn handle_invocation(&self, request: &InvocationRequest) -> (dispatch: Dispatch<'_, S, H>)
        ensures
            is_dispatch(self@, request@, dispatch),
    {
        self.handle_invocation_with(self.fallback(), request)
    }

    /// Finds where an invocation goes that a clone of the router gets.
    ///
    /// A clone finds the handlers that the router finds, those too that are registered later, and
    /// has a fallback of its own.
    pub fn handle_invocation_with<'a>(
        &'a self,
        fallback: Option<&'a H>,
        request: &InvocationRequest,
    ) -> (dispatch: Dispatch<'a, S, H>)
        ensures
            is_dispatch(clone_of(self@, option_handler(fallback)), request@, dispatch),
    {
        match self.handlers.get(request.method.as_str()) {
            Some(handler) => Dispatch::Call {
                handler,
                state: &self.state,
                as_method: request.id.is_some(),
            },
            None => match fallback {
                Some(handler) => Dispatch::Call {
                    handler,
                    state: &self.state,
                    as_method: request.id.is_some(),
                },
                None => Dispatch::Answer(ResponsePayload::error(fallback_handler(request))),
            },
        }
    }
}

/// What an optional reference to a handler stands for.
pub open spec fn option_handler<H>(handler: Option<&H>) -> Option<H> {
    match handler {
        Some(handler) => Some(*handler),
        None => None,
    }
}

/// A clone of a router: it has its own fallback, and shares everything else.
pub open spec fn clone_of<S, H>(router: RouterView<S, H>, fallback: Option<H>) -> RouterView<
    S,
    H,
> {
    RouterView { fallback, ..router }
}

/// What came of running a handler.
#[derive(Debug)]
pub enum HandlerOutcome {
    /// It handled a method call and returned this.
    Response(ResponsePayload),
    /// It handled a notification.
    NoResponse,
    /// It panicked.
    Panicked,
}

/// What the caller is told of a handler that panicked.
pub open spec fn panic_details() -> ErrorDetailsView {
    details(
        ErrorCode::InternalError,
        "The requested handler encountered a serious error"@,
        None,
    )
}

fn make_panic_error_response(request_id: Id) -> (response: Response)
    ensures
        response.id == request_id,
        response@ == error_response(request_id@, panic_details()),
{
    Response::error(
        request_id,
        ErrorCode::InternalError,
        "The requested handler encountered a serious error".to_string(),
        None,
    )
}

/// The response to an invocation.
pub open spec fn response_to(id: Option<IdView>, outcome: HandlerOutcome) -> Option<ResponseView> {
    match (id, outcome) {
        (Some(id), HandlerOutcome::Response(payload)) => Some(
            ResponseView { payload: payload@, id },
        ),
        (Some(id), HandlerOutcome::Panicked) => Some(error_response(id, panic_details())),
        _ => None,
    }
}

/// What an optional response stands for.
pub open spec fn option_response(response: Option<Response>) -> Option<ResponseView> {
    match response {
        Some(response) => Some(response@),
        None => None,
    }
}

/// Makes the response to an invocation of what came of running its handler.
///
/// A notification gets none, whatever came of it.
pub fn invocation_response(id: Option<Id>, outcome: HandlerOutcome) -> (response: Option<Response>)
    ensures
        option_response(response) == response_to(option_id(id), outcome),
        match (id, outcome) {
            (Some(id), HandlerOutcome::Response(payload)) => {
                &&& response matches Some(answer)
                &&& answer.id == id
                &&& answer.payload == payload
            },
            (Some(id), HandlerOutcome::Panicked) => {
                &&& response matches Some(answer)
                &&& answer.id == id
                &&& answer.payload@ matches ResponsePayloadView::Error(error)
                &&& error.code == ErrorCode::InternalError
                &&& error.message == "The requested handler encountered a serious error"@
                &&& error.data is None
            },
            _ => response is None,
        },
{
    match (id, outcome) {
        (Some(id), HandlerOutcome::Response(payload)) => Some(Response::new(id, payload)),
        (Some(id), HandlerOutcome::Panicked) => Some(make_panic_error_response(id)),
        _ => None,
    }
}

/// The outcome of an invocation as `dispatch` lets it be: a handler that gets a method call
/// returns a payload or panics, one that gets a notification returns nothing or panics.
pub open spec fn is_outcome<S, H>(dispatch: Dispatch<'_, S, H>, outcome: HandlerOutcome) -> bool {
    match dispatch {
        Dispatch::Call { as_method, .. } => match outcome {
            HandlerOutcome::Response(_) => as_method,
            HandlerOutcome::NoResponse => !as_method,
            HandlerOutcome::Panicked => true,
        },
        Dispatch::Answer(payload) => outcome == HandlerOutcome::Response(payload),
    }
}

/// The place an invocation goes to, as [`Router::handle_invocation`] finds it.
pub open spec fn is_dispatch<S, H>(
    router: RouterView<S, H>,
    request: InvocationView,
    dispatch: Dispatch<'_, S, H>,
) -> bool {
    if router.handlers.contains_key(request.method) {
        dispatch == (Dispatch::Call {
            handler: &router.handlers[request.method],
            state: &router.state,
            as_method: request.id is Some,
        })
    } else {
        match router.fallback {
            Some(handler) => dispatch == (Dispatch::Call {
                handler: &handler,
                state: &router.state,
                as_method: request.id is Some,
            }),
            None => dispatch matches Dispatch::Answer(payload) && payload@
                == ResponsePayloadView::Error(unknown_method(request)),
        }
    }
}

/// A method call gets exactly one response, which bears its id; a notification gets none. This
/// holds for every router, every handler, and whether or not the handler panics.
pub proof fn law_calls_are_answered_and_notifications_are_not<S, H>(
    router: RouterView<S, H>,
    request: InvocationView,
    dispatch: Dispatch<'_, S, H>,
    outcome: HandlerOutcome,
)
    requires
        is_dispatch(router, request, dispatch),
        is_outcome(dispatch, outcome),
    ensures
        match request.id {
            Some(id) => response_to(request.id, outcome) matches Some(response) && response.id
                == id,
            None => response_to(request.id, outcome) is None,
        },
{
}

/// A method call that nothing is registered for, not even a fallback, is answered with an error
/// that names the method.
pub proof fn law_unknown_method_is_reported<S, H>(
    router: RouterView<S, H>,
    request: InvocationView,
    dispatch: Dispatch<'_, S, H>,
    outcome: HandlerOutcome,
)
    requires
        !router.handlers.contains_key(request.method),
        router.fallback is None,
        request.id is Some,
        is_dispatch(router, request, dispatch),
        is_outcome(dispatch, outcome),
    ensures
        response_to(request.id, outcome) == Some(
            error_response(
                request.id->Some_0,
                details(
                    ErrorCode::MethodNotFound,
                    "Unknown method '"@ + request.method + "'"@,
                    None,
                ),
            ),
        ),
{
}

/// Something that is registered with a router.
pub enum Registration<H> {
    /// The handler of a method.
    Handler { method: Seq<char>, handler: H },
    /// What handles everything that no other handler is registered for.
    Fallback(H),
}

/// The router once each of `registrations` was made in turn.
pub open spec fn registered<S, H>(
    router: RouterView<S, H>,
    registrations: Seq<Registration<H>>,
) -> RouterView<S, H>
    decreases registrations.len(),
{
    if registrations.len() == 0 {
        router
    } else {
        let before = registered(router, registrations.drop_last());
        match registrations.last() {
            Registration::Handler { method, handler } => RouterView {
                handlers: before.handlers.insert(method, handler),
                ..before
            },
            Registration::Fallback(handler) => RouterView { fallback: Some(handler), ..before },
        }
    }
}

/// Whatever is registered with a router, it keeps the state that it was created with, and every
/// handler that it finds is given that state.
pub proof fn law_handlers_get_the_state_of_the_router<S, H>(
    state: S,
    registrations: Seq<Registration<H>>,
    request: InvocationView,
    dispatch: Dispatch<'_, S, H>,
)
    requires
        is_dispatch(registered(new_router(state), registrations), request, dispatch),
    ensures
        registered(new_router::<S, H>(state), registrations).state == state,
        dispatch matches Dispatch::Call { state: given, .. } ==> *given == state,
{
    lemma_registering_keeps_the_state(new_router::<S, H>(state), registrations);
}

/// To register handlers leaves the state of the router alone.
pub proof fn lemma_registering_keeps_the_state<S, H>(
    router: RouterView<S, H>,
    registrations: Seq<Registration<H>>,
)
    ensures
        registered(router, registrations).state == router.state,
    decreases registrations.len(),
{
    if registrations.len() > 0 {
        lemma_registering_keeps_the_state(router, registrations.drop_last());
    }
}

/// A handler gets a method call as a method call and a notification as a notification, whether it
/// was registered for the method or handles everything else.
pub proof fn law_handlers_get_invocations_as_what_they_are<S, H>(
    router: RouterView<S, H>,
    request: InvocationView,
    dispatch: Dispatch<'_, S, H>,
)
    requires
        is_dispatch(router, request, dispatch),
    ensures
        dispatch matches Dispatch::Call { as_method, .. } ==> as_method == (request.id is Some),
{
}

/// Once a handler was registered for a method it gets every invocation of the method, and all other
/// invocations go where they went before.
pub proof fn law_registered_handler_is_found<S, H>(
    router: RouterView<S, H>,
    method: Seq<char>,
    handler: H,
    request: InvocationView,
    dispatch: Dispatch<'_, S, H>,
)
    requires
        is_dispatch(
            RouterView { handlers: router.handlers.insert(method, handler), ..router },
            request,
            dispatch,
        ),
    ensures
        if request.method == method {
            dispatch == (Dispatch::Call {
                handler: &handler,
                state: &router.state,
                as_method: request.id is Some,
            })
        } else {
            is_dispatch(router, request, dispatch)
        },
{
}

/// A handler that is registered with a router is found by all clones of the router, and what is
/// registered with it for everything else is not; whatever else a clone gets goes where it went
/// before.
pub proof fn law_clones_share_handlers_but_no_fallback<S, H>(
    router: RouterView<S, H>,
    fallback: Option<H>,
    registration: Registration<H>,
    request: InvocationView,
    dispatch: Dispatch<'_, S, H>,
)
    requires
        is_dispatch(
            clone_of(registered(router, seq![registration]), fallback),
            request,
            dispatch,
        ),
    ensures
        match registration {
            Registration::Handler { method, handler } if request.method == method => dispatch == (
            Dispatch::Call {
                handler: &handler,
                state: &router.state,
                as_method: request.id is Some,
            }),
            _ => is_dispatch(clone_of(router, fallback), request, dispatch),
        },
{
    reveal_with_fuel(registered, 2);
}

/// What a handler returns for a method call, a result or an error, is what the call is answered
/// with, under the id of the call: it is that very payload.
pub proof fn law_call_is_answered_with_what_its_handler_returned(
    id: IdView,
    payload: ResponsePayload,
)
    ensures
        response_to(Some(id), HandlerOutcome::Response(payload)) matches Some(response) && {
            &&& response.id == id
            &&& match payload {
                ResponsePayload::Success(success) => response.payload
                    == ResponsePayloadView::Success(success.result@),
                ResponsePayload::Error(failure) => response.payload == ResponsePayloadView::Error(
                    failure.error@,
                ),
            }
        },
{
}

/// A method call of which the handler panicked is answered with an internal error, under the id of
/// the call and without any detail of the panic; a notification is not answered, whatever came of
/// its handler.
pub proof fn law_panic_is_answered_with_an_internal_error(id: IdView, outcome: HandlerOutcome)
    ensures
        response_to(Some(id), HandlerOutcome::Panicked) matches Some(response) && {
            &&& response.id == id
            &&& response.payload matches ResponsePayloadView::Error(error)
            &&& error.code == ErrorCode::InternalError
            &&& error.message == "The requested handler encountered a serious error"@
            &&& error.data is None
        },
        response_to(None, outcome) is None,
        response_to(Some(id), HandlerOutcome::NoResponse) is None,
{
}

/// A response that there may be stands for nothing exactly where there is none.
pub proof fn law_option_response_holds_the_response(response: Response)
    ensures
        option_response(Some(response)) == Some(response@),
        option_response(None) is None,
{
}

/// Of the handlers of a router, the one that is registered for the method gets an invocation; where
/// there is none, the fallback does; where there is none either, a method call is told that the
/// method is unknown.
pub proof fn law_invocation_goes_to_its_handler<S, H>(
    router: RouterView<S, H>,
    request: InvocationView,
    dispatch: Dispatch<'_, S, H>,
)
    requires
        is_dispatch(router, request, dispatch),
    ensures
        router.handlers.contains_key(request.method) ==> {
            &&& dispatch matches Dispatch::Call { handler, state, as_method }
            &&& *handler == router.handlers[request.method]
            &&& *state == router.state
            &&& as_method == (request.id is Some)
        },
        !router.handlers.contains_key(request.method) && router.fallback is Some ==> {
            &&& dispatch matches Dispatch::Call { handler, state, as_method }
            &&& *handler == router.fallback->Some_0
            &&& *state == router.state
            &&& as_method == (request.id is Some)
        },
        !router.handlers.contains_key(request.method) && router.fallback is None ==> {
            &&& dispatch matches Dispatch::Answer(payload)
            &&& payload@ matches ResponsePayloadView::Error(error)
            &&& error.code == ErrorCode::MethodNotFound
            &&& error.data is None
            &&& error.message == if request.id is Some {
                "Unknown method '"@ + request.method + "'"@
            } else {
                "Unknown notification"@
            }
        },
{
}

/// A router that is new has the state that it was given, and neither handlers nor a fallback; a
/// clone of a router has the handlers and the state of the router, and a fallback of its own.
pub proof fn law_new_routers_and_clones<S, H>(
    state: S,
    router: RouterView<S, H>,
    fallback: Option<H>,
    method: Seq<char>,
)
    ensures
        new_router::<S, H>(state).state == state,
        new_router::<S, H>(state).fallback is None,
        !new_router::<S, H>(state).handlers.contains_key(method),
        clone_of(router, fallback).state == router.state,
        clone_of(router, fallback).handlers == router.handlers,
        clone_of(router, fallback).fallback == fallback,
{
}

/// What is registered last is there, and what was registered before is left as it was: a handler
/// takes the place of the one of the same method only, and a fallback that of the fallback only.
pub proof fn law_last_registration_counts<S, H>(
    router: RouterView<S, H>,
    registrations: Seq<Registration<H>>,
    last: Registration<H>,
)
    ensures
        ({
            let before = registered(router, registrations);
            let after = registered(router, registrations.push(last));
            &&& after.state == before.state
            &&& match last {
                Registration::Handler { method, handler } => {
                    &&& after.handlers == before.handlers.insert(method, handler)
                    &&& after.fallback == before.fallback
                },
                Registration::Fallback(handler) => {
                    &&& after.handlers == before.handlers
                    &&& after.fallback == Some(handler)
                },
            }
        }),
        registered(router, Seq::<Registration<H>>::empty()) == router,
{
    assert(registrations.push(last).drop_last() =~= registrations);
}

} // verus!
