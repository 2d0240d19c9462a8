//! Servers: one set of handlers for any number of connections.
use crate::handler::InvocationView;
use crate::router::{
    is_dispatch, law_handlers_get_the_state_of_the_router, law_registered_handler_is_found,
    new_router, registered, Dispatch, Registration, Router, RouterView,
};
use crate::service::{default_config, Service, ServiceView};
use vstd::prelude::*;

verus! {

/// Builds a [`Server`]: first it is given the state, then the handlers.
pub struct ServerBuilder<Stage> {
    pub stage: Stage,
}

/// The state is wanted.
pub struct Stage1;

/// The state is there, and handlers can be added.
#[verifier::reject_recursive_types(H)]
pub struct Stage2<S, H> {
    pub router: Router<S, H>,
}

impl Default for ServerBuilder<Stage1> {
    fn default() -> (builder: Self)
        ensures
            builder == (ServerBuilder { stage: Stage1 }),
    {
        ServerBuilder { stage: Stage1 }
    }
}

impl ServerBuilder<Stage1> {
    /// Lets all handlers share `state`.
    pub fn with_state<S, H>(self, state: S) -> (builder: ServerBuilder<Stage2<S, H>>)
        ensures
            builder.stage.router@ == new_router::<S, H>(state),
    {
        ServerBuilder { stage: Stage2 { router: Router::new_with_state(state) } }
    }

    /// Lets handlers share nothing.
    pub fn without_state<H>(self) -> (builder: ServerBuilder<Stage2<(), H>>)
        ensures
            builder.stage.router@ == new_router::<(), H>(()),
    {
        ServerBuilder { stage: Stage2 { router: Router::new_stateless() } }
    }

    /// Takes the state and the handlers of `router`.
    pub fn with_router<S, H>(self, router: Router<S, H>) -> (builder: ServerBuilder<Stage2<S, H>>)
        ensures
            builder.stage.router == router,
    {
        ServerBuilder { stage: Stage2 { router } }
    }
}

impl<S, H> ServerBuilder<Stage2<S, H>> {
    /// Adds what handles everything that no other handler is there for.
    pub fn with_fallback_handler(self, handler: H) -> (builder: Self)
        ensures
            builder.stage.router@ == (RouterView {
                fallback: Some(handler),
                ..self.stage.router@
            }),
    {
        let mut router = self.stage.router;
        router.register_fallback_handler(handler);
        ServerBuilder { stage: Stage2 { router } }
    }

    /// Adds the handler of a method.
    pub fn with_handler(self, method: String, handler: H) -> (builder: Self)
        ensures
            builder.stage.router@ == (RouterView {
                handlers: self.stage.router@.handlers.insert(method@, handler),
                ..self.stage.router@
            }),
    {
        let mut router = self.stage.router;
        router.register_handler(method, handler);
        ServerBuilder { stage: Stage2 { router } }
    }

    /// Builds the server.
    pub fn build(self) -> (server: Server<S, H>)
        ensures
            server@ == (ServiceView { config: default_config(), router: self.stage.router@ }),
    {
        Server::from_service(Service::new(self.stage.router))
    }
}

/// A server.
#[verifier::reject_recursive_types(H)]
pub struct Server<S, H> {
    service: Service<S, H>,
}

impl<S, H> View for Server<S, H> {
    type V = ServiceView<S, H>;

    closed spec fn view(&self) -> ServiceView<S, H> {
        self.service@
    }
}

impl<H> Server<(), H> {
    /// Starts to build a server.
    pub fn builder() -> (builder: ServerBuilder<Stage1>)
        ensures
            builder == (ServerBuilder { stage: Stage1 }),
    {
        ServerBuilder::default()
    }
}

impl<S, H> Server<S, H> {
    fn from_service(service: Service<S, H>) -> (server: Self)
        ensures
            server@ == service@,
    {
        Server { service }
    }

    /// Returns the state that all handlers share.
    pub fn state(&self) -> (state: &S)
        ensures
            *state == self@.router.state,
    {
        self.service.state()
    }

    /// Returns the handlers, to be changed.
    pub fn router(&mut self) -> (router: &mut Router<S, H>)
        ensures
            router@ == old(self)@.router,
            final(self)@ == (ServiceView { router: final(router)@, ..old(self)@ }),
    {
        self.service.router_mut()
    }

    /// Hands over what services the connections.
    pub fn into_service(self) -> (service: Service<S, H>)
        ensures
            service@ == self@,
    {
        self.service
    }

    /// Returns what services the connections.
    pub fn service(&self) -> (service: &Service<S, H>)
        ensures
            service@ == self@,
    {
        &self.service
    }
}

/// A server keeps the state that it was built with, whatever handlers it was given, before it was
/// built and after; it dispatches every invocation by those handlers, and gives them that state.
pub proof fn law_handlers_get_the_state_of_the_server<S, H>(
    state: S,
    registrations: Seq<Registration<H>>,
    server: ServiceView<S, H>,
    request: InvocationView,
    dispatch: Dispatch<'_, S, H>,
)
    requires
        server.router == registered(new_router(state), registrations),
        is_dispatch(server.router, request, dispatch),
    ensures
        server.router.state == state,
        dispatch matches Dispatch::Call { state: given, .. } ==> *given == state,
{
    law_handlers_get_the_state_of_the_router(state, registrations, request, dispatch);
}

/// A server that was built with a router dispatches every invocation as that router does.
pub proof fn law_server_dispatches_as_its_router<S, H>(
    router: RouterView<S, H>,
    server: ServiceView<S, H>,
    request: InvocationView,
    dispatch: Dispatch<'_, S, H>,
)
    requires
        server == (ServiceView { config: default_config(), router }),
    ensures
        is_dispatch(server.router, request, dispatch) <==> is_dispatch(router, request, dispatch),
{
}

/// A handler that is registered with the router of a server gets, from then on, every invocation of
/// its method that the server dispatches, and all other invocations go where they went before; the
/// state stays what it was.
pub proof fn law_handler_added_to_a_server_is_found<S, H>(
    before: ServiceView<S, H>,
    after: ServiceView<S, H>,
    method: Seq<char>,
    handler: H,
    request: InvocationView,
    dispatch: Dispatch<'_, S, H>,
)
    requires
        after == (ServiceView {
            router: RouterView {
                handlers: before.router.handlers.insert(method, handler),
                ..before.router
            },
            ..before
        }),
        is_dispatch(after.router, request, dispatch),
    ensures
        after.router.state == before.router.state,
        if request.method == method {
            dispatch == (Dispatch::Call {
                handler: &handler,
                state: &before.router.state,
                as_method: request.id is Some,
            })
        } else {
            is_dispatch(before.router, request, dispatch)
        },
{
    law_registered_handler_is_found(before.router, method, handler, request, dispatch);
}

} // verus!
