//! Clients: one connection, over which both peers can make calls.
use crate::router::{new_router, Router, RouterView};
use crate::service::{default_config, Service, ServiceView};
use vstd::prelude::*;

verus! {

/// Builds a [`Client`]: first it is given the state, then the handlers.
pub struct ClientBuilder<Stage> {
    pub stage: Stage,
}

/// The state is wanted.
pub struct Stage1;

/// The state is there, and handlers can be added.
#[verifier::reject_recursive_types(H)]
pub struct Stage2<S, H> {
    pub router: Router<S, H>,
}

impl Default for ClientBuilder<Stage1> {
    fn default() -> (builder: Self)
        ensures
            builder == (ClientBuilder { stage: Stage1 }),
    {
        ClientBuilder { stage: Stage1 }
    }
}

impl ClientBuilder<Stage1> {
    /// Lets all handlers share `state`.
    pub fn with_state<S, H>(self, state: S) -> (builder: ClientBuilder<Stage2<S, H>>)
        ensures
            builder.stage.router@ == new_router::<S, H>(state),
    {
        ClientBuilder { stage: Stage2 { router: Router::new_with_state(state) } }
    }

    /// Lets handlers share nothing.
    pub fn without_state<H>(self) -> (builder: ClientBuilder<Stage2<(), H>>)
        ensures
            builder.stage.router@ == new_router::<(), H>(()),
    {
        ClientBuilder { stage: Stage2 { router: Router::new_stateless() } }
    }

    /// Takes the state and the handlers of `router`.
    pub fn with_router<S, H>(self, router: Router<S, H>) -> (builder: ClientBuilder<Stage2<S, H>>)
        ensures
            builder.stage.router == router,
    {
        ClientBuilder { stage: Stage2 { router } }
    }
}

impl<S: Clone, H> ClientBuilder<Stage2<S, H>> {
    /// Adds what handles everything that no other handler is there for.
    pub fn with_fallback_handler(self, handler: H) -> (builder: Self)
        ensures
            builder.stage.router@ == (RouterView {
                fallback: Some(handler),
                ..self.stage.router@
            }),
    {
        let mut router = self.stage.router;
        router.register_fallback_handler(handler);
        ClientBuilder { stage: Stage2 { router } }
    }

    /// Adds the handler of a method.
    pub fn with_handler(self, method: String, handler: H) -> (builder: Self)
        ensures
            builder.stage.router@ == (RouterView {
                handlers: self.stage.router@.handlers.insert(method@, handler),
                ..self.stage.router@
            }),
    {
        let mut router = self.stage.router;
        router.register_handler(method, handler);
        ClientBuilder { stage: Stage2 { router } }
    }

    /// Builds the client that services a connection with these handlers.
    pub fn bind(self) -> (client: Client<S, H>)
        ensures
            client@ == (ServiceView { config: default_config(), router: self.stage.router@ }),
            cloned(self.stage.router@.state, client.own_state()),
    {
        Client::new(self.stage.router)
    }
}

/// A client.
#[verifier::reject_recursive_types(H)]
pub struct Client<S, H> {
    state: S,
    service: Service<S, H>,
}

impl<S, H> View for Client<S, H> {
    type V = ServiceView<S, H>;

    closed spec fn view(&self) -> ServiceView<S, H> {
        self.service@
    }
}

impl<H> Client<(), H> {
    /// Starts to build a client.
    pub fn builder() -> (builder: ClientBuilder<Stage1>)
        ensures
            builder == (ClientBuilder { stage: Stage1 }),
    {
        ClientBuilder::default()
    }
}

impl<S: Clone, H> Client<S, H> {
    /// The client's own clone of the state.
    pub closed spec fn own_state(&self) -> S {
        self.state
    }

    fn new(router: Router<S, H>) -> (client: Self)
        ensures
            client@ == (ServiceView { config: default_config(), router: router@ }),
            cloned(router@.state, client.own_state()),
    {
        let state = router.state().clone();
        Client { state, service: Service::new(router) }
    }

    /// Returns the client's own clone of the state.
    pub fn state(&self) -> (state: &S)
        ensures
            *state == self.own_state(),
    {
        &self.state
    }

    /// Hands over what services the connection.
    pub fn into_service(self) -> (service: Service<S, H>)
        ensures
            service@ == self@,
    {
        self.service
    }

    /// Returns what services the connection.
    pub fn service(&self) -> (service: &Service<S, H>)
        ensures
            service@ == self@,
    {
        &self.service
    }
}

} // verus!
