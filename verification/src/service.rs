//! What the connections of a client or a server have in common.
use crate::router::{Router, RouterView};
use vstd::prelude::*;

verus! {

/// A length of time.
#[derive(Clone, Copy, Debug, PartialEq, Eq, Structural)]
pub struct TimeSpan {
    pub seconds: u64,
    /// Less than one second.
    pub nanoseconds: u32,
}

/// How connections are serviced.
#[derive(Clone, Copy, Debug, PartialEq, Eq, Structural)]
pub struct ServiceConfig {
    /// How many messages of the remote peer are processed at a time, if there is a limit.
    pub max_concurrent_requests: Option<usize>,
    /// How long the processing of a message may take, if there is a limit.
    pub inbound_request_timeout: Option<TimeSpan>,
    /// How long operations may go on when the connection shuts down before they are aborted, if
    /// there is a limit.
    pub graceful_connection_shutdown_timeout: Option<TimeSpan>,
}

impl Default for ServiceConfig {
    fn default() -> (config: Self)
        ensures
            config == default_config(),
    {
        ServiceConfig {
            max_concurrent_requests: None,
            inbound_request_timeout: None,
            graceful_connection_shutdown_timeout: Some(TimeSpan { seconds: 5, nanoseconds: 0 }),
        }
    }
}

/// The configuration that holds where none is given.
pub open spec fn default_config() -> ServiceConfig {
    ServiceConfig {
        max_concurrent_requests: None,
        inbound_request_timeout: None,
        graceful_connection_shutdown_timeout: Some(TimeSpan { seconds: 5, nanoseconds: 0 }),
    }
}

/// Services connections, with handlers that they all share.
#[verifier::reject_recursive_types(H)]
pub struct Service<S, H> {
    config: ServiceConfig,
    router: Router<S, H>,
}

/// The view of a [`Service`].
#[verifier::reject_recursive_types(H)]
pub struct ServiceView<S, H> {
    pub config: ServiceConfig,
    pub router: RouterView<S, H>,
}

impl<S, H> View for Service<S, H> {
    type V = ServiceView<S, H>;

    closed spec fn view(&self) -> ServiceView<S, H> {
        ServiceView { config: self.config, router: self.router@ }
    }
}

impl<S, H> Service<S, H> {
    /// Creates a service with the handlers of `router`.
    pub fn new(router: Router<S, H>) -> (service: Self)
        ensures
            service@ == (ServiceView { config: default_config(), router: router@ }),
    {
        Service { config: ServiceConfig::default(), router }
    }

    /// Services connections in another way.
    pub fn with_config(self, config: ServiceConfig) -> (service: Self)
        ensures
            service@ == (ServiceView { config, ..self@ }),
    {
        Service { config, router: self.router }
    }

    /// Returns how connections are serviced.
    pub fn config(&self) -> (config: &ServiceConfig)
        ensures
            *config == self@.config,
    {
        &self.config
    }

    /// Returns the state that all handlers share.
    pub fn state(&self) -> (state: &S)
        ensures
            *state == self@.router.state,
    {
        self.router.state()
    }

    /// Returns the handlers.
    pub fn router(&self) -> (router: &Router<S, H>)
        ensures
            router@ == self@.router,
    {
        &self.router
    }

    /// Returns the handlers, to be changed.
    pub fn router_mut(&mut self) -> (router: &mut Router<S, H>)
        ensures
            router@ == old(self)@.router,
            final(self)@ == (ServiceView { router: final(router)@, ..old(self)@ }),
    {
        &mut self.router
    }
}

/// Where nothing else is said, there is no limit to how many messages are processed at a time nor to
/// how long that takes, and operations may go on for five seconds when a connection shuts down.
pub proof fn law_default_limits()
    ensures
        default_config().max_concurrent_requests is None,
        default_config().inbound_request_timeout is None,
        default_config().graceful_connection_shutdown_timeout matches Some(limit) && limit.seconds
            == 5 && limit.nanoseconds == 0,
{
}

} // verus!
