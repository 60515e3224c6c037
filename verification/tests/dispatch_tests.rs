use fluxrpc_core::{ErrorCode, Event, HandlerRoutes, Request, StandardErrorCode};
use serde_json::Value;

#[test]
fn routes_requests_by_method() {
    let mut routes: HandlerRoutes<&str, u32> = HandlerRoutes::new();
    routes.register_request("test", "first test handler");
    routes.register_request("some_request", "some handler");
    // registering again replaces the handler
    routes.register_request("test", "test handler");

    let req = Request { id: "1".to_string(), method: "test".to_string(), params: Some(Value::from(1.0)) };
    let (handler, params) = routes.route_request(req).ok().unwrap();
    assert_eq!(*handler, "test handler");
    assert_eq!(params, Value::from(1.0));

    let req = Request { id: "2".to_string(), method: "some_request".to_string(), params: None };
    let (handler, params) = routes.route_request(req).ok().unwrap();
    assert_eq!(*handler, "some handler");
    assert_eq!(params, Value::Null);

    assert_eq!(routes.request_handler("test"), Some(&"test handler"));
    assert_eq!(routes.request_handler("missing"), None);

    let req = Request { id: "3".to_string(), method: "missing".to_string(), params: None };
    match routes.route_request(req) {
        Err(e) => {
            assert_eq!(e.code, ErrorCode::Standard(StandardErrorCode::NotImplemented));
            assert_eq!(e.message, "Method [missing] is not implemented");
        }
        Ok(_) => panic!("no handler for this method"),
    }
}

#[test]
fn routes_events_by_name() {
    let mut routes: HandlerRoutes<u32, &str> = HandlerRoutes::new();
    routes.register_event("my_event", "my handler");
    routes.register_event("other", "other handler");
    let (handler, data) = routes
        .route_event(Event { event: "other".to_string(), data: Some(Value::from("x")) })
        .unwrap();
    assert_eq!(*handler, "other handler");
    assert_eq!(data, Value::from("x"));
    let (handler, data) = routes.route_event(Event { event: "my_event".to_string(), data: None }).unwrap();
    assert_eq!(*handler, "my handler");
    assert_eq!(data, Value::Null);
    assert!(routes.route_event(Event { event: "unknown".to_string(), data: None }).is_none());
    // request and event names are separate
    assert!(routes
        .route_request(Request { id: "1".to_string(), method: "my_event".to_string(), params: None })
        .is_err());
}

#[test]
fn a_later_registration_replaces_the_handler() {
    let mut routes: HandlerRoutes<u32, u32> = HandlerRoutes::new();
    routes.register_request("add", 1);
    routes.register_event("tick", 10);
    routes.register_request("add", 2);
    let req = Request { id: "1".to_string(), method: "add".to_string(), params: None };
    assert_eq!(*routes.route_request(req).ok().unwrap().0, 2);
    // the event handlers are untouched by request registrations
    let (handler, _) = routes.route_event(Event { event: "tick".to_string(), data: None }).unwrap();
    assert_eq!(*handler, 10);
}

#[test]
fn methods_are_listed_once_in_registration_order() {
    let mut routes: HandlerRoutes<u32, u32> = HandlerRoutes::new();
    assert!(routes.methods_in_order().is_empty());
    routes.register_request("b", 1);
    routes.register_request("a", 2);
    routes.register_event("c", 3);
    routes.register_request("b", 4);
    assert_eq!(routes.methods_in_order(), &vec!["b".to_string(), "a".to_string()]);
    assert_eq!(routes.request_handler("b"), Some(&4));
}
