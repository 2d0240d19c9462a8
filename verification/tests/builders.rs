use mcpox_jsonrpc::assoc_map::AssocMap;
use mcpox_jsonrpc::client::Client;
use mcpox_jsonrpc::handler::InvocationRequest;
use mcpox_jsonrpc::router::{Dispatch, Router};
use mcpox_jsonrpc::server::Server;
use mcpox_jsonrpc::service::{Service, ServiceConfig, TimeSpan};
use mcpox_jsonrpc::types::Id;

fn find(router: &Router<u8, &'static str>, method: &str) -> Option<&'static str> {
    let request = InvocationRequest { id: None, method: method.to_string(), params: None };
    match router.handle_invocation(&request) {
        Dispatch::Call { handler, .. } => Some(*handler),
        Dispatch::Answer(_) => None,
    }
}

#[test]
fn a_server_is_built() {
    let mut server = Server::<(), ()>::builder()
        .with_state::<u8, &'static str>(3)
        .with_handler("a".to_string(), "A")
        .build();
    assert_eq!(*server.state(), 3);
    assert_eq!(find(server.service().router(), "a"), Some("A"));
    assert_eq!(find(server.service().router(), "b"), None);
    server.router().register_fallback_handler("F");
    assert_eq!(find(server.service().router(), "b"), Some("F"));
    assert_eq!(*server.service().config(), ServiceConfig::default());

    let stateless = Server::<(), ()>::builder().without_state::<u8>().build();
    assert_eq!(*stateless.state(), ());
}

#[test]
fn a_client_is_built() {
    let mut router: Router<u8, &'static str> = Router::new_with_state(4);
    router.register_handler("a".to_string(), "A");
    let client = Client::<(), ()>::builder()
        .with_router(router)
        .with_fallback_handler("F")
        .with_handler("b".to_string(), "B")
        .bind();
    assert_eq!(*client.state(), 4);
    assert_eq!(*client.service().state(), 4);
    assert_eq!(find(client.service().router(), "a"), Some("A"));
    assert_eq!(find(client.service().router(), "b"), Some("B"));
    assert_eq!(find(client.service().router(), "c"), Some("F"));

    let with_state = Client::<(), ()>::builder().with_state::<u8, ()>(9).bind();
    assert_eq!(*with_state.state(), 9);
    let stateless = Client::<(), ()>::builder().without_state::<u8>().bind();
    assert_eq!(*stateless.state(), ());
}

#[test]
fn a_service_is_configured() {
    let default = ServiceConfig::default();
    assert_eq!(default.max_concurrent_requests, None);
    assert_eq!(default.inbound_request_timeout, None);
    assert_eq!(
        default.graceful_connection_shutdown_timeout,
        Some(TimeSpan { seconds: 5, nanoseconds: 0 })
    );
    let config = ServiceConfig { graceful_connection_shutdown_timeout: None, ..default };
    let mut service: Service<u8, &'static str> =
        Service::new(Router::new_with_state(1)).with_config(config);
    assert_eq!(*service.config(), config);
    assert_eq!(*service.state(), 1);
    service.router_mut().register_handler("a".to_string(), "A");
    assert_eq!(find(service.router(), "a"), Some("A"));
}

#[test]
fn a_map_keeps_one_value_for_each_key() {
    let mut map: AssocMap<Id, u8> = AssocMap::new();
    assert!(map.is_empty());
    assert_eq!(map.insert(Id::Number(1), 1), None);
    assert_eq!(map.insert(Id::Null, 2), None);
    assert_eq!(map.insert(Id::Number(1), 3), Some(1));
    assert_eq!(map.len(), 2);
    assert_eq!(map.get(&Id::Number(1)), Some(&3));
    assert_eq!(map.get(&Id::Number(2)), None);
    *map.get_mut(&Id::Null).unwrap() = 5;
    assert!(map.get_mut(&Id::Number(7)).is_none());
    assert!(map.contains_key(&Id::Null));
    assert_eq!(map.remove(&Id::Null), Some(5));
    assert_eq!(map.remove(&Id::Null), None);
    assert_eq!(map.drain(), vec![(Id::Number(1), 3)]);
    assert!(map.is_empty());
}
