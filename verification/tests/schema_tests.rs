use fluxrpc_core::schema::{
    components_schema, event_schema, method_schema, request_schema, EventSchemas,
};
use serde_json::Value;

fn json(text: &str) -> Value {
    serde_json::from_str(text).unwrap()
}

#[test]
fn event_envelope() {
    let doc = event_schema("my_event", json(r#"{"type":"integer"}"#));
    assert_eq!(
        doc,
        json(r#"{"properties":{"event":{"type":"string","const":"my_event"},"data":{"type":"integer"}},"required":["event"]}"#)
    );
}

#[test]
fn request_envelope() {
    let description = method_schema("test", json(r#"{"type":"number"}"#), json(r#"{"type":"boolean"}"#));
    assert_eq!(
        description,
        json(r#"{"method":"test","params":{"type":"number"},"result":{"type":"boolean"}}"#)
    );
    let doc = request_schema("test", description);
    assert_eq!(
        doc,
        json(r#"{"properties":{"id":{"type":"string"},"method":{"type":"string","const":"test"},
            "params":{"method":"test","params":{"type":"number"},"result":{"type":"boolean"}}},
            "required":["id","method"]}"#)
    );
}

#[test]
fn whole_document() {
    let events = vec![("e".to_string(), json("1")), ("f".to_string(), json("2")), ("e".to_string(), json("3"))];
    let requests = vec![("r".to_string(), json("true"))];
    let doc = components_schema(&events, &requests);
    assert_eq!(doc, json(r#"{"components":{"events":{"e":3,"f":2},"requests":{"r":true}}}"#));
    let empty = components_schema(&vec![], &vec![]);
    assert_eq!(empty, json(r#"{"components":{"events":{},"requests":{}}}"#));
}

#[test]
fn event_schemas_keep_one_schema_per_name() {
    let mut events = EventSchemas::new();
    events.register_event_schema("tick", json(r#"{"type":"integer"}"#));
    events.register_event_schema("log", json(r#"{"type":"string"}"#));
    // registering again replaces the schema and keeps the place
    events.register_event_schema("tick", json(r#"{"type":"number"}"#));
    let envelopes = events.envelopes();
    assert_eq!(envelopes.len(), 2);
    assert_eq!(envelopes[0].0, "tick");
    assert_eq!(envelopes[0].1, event_schema("tick", json(r#"{"type":"number"}"#)));
    assert_eq!(envelopes[1].0, "log");
    assert_eq!(envelopes[1].1, event_schema("log", json(r#"{"type":"string"}"#)));
    assert!(EventSchemas::new().envelopes().is_empty());
}

#[test]
fn request_envelopes_keep_names_and_order() {
    use_request_envelopes();
}

fn use_request_envelopes() {
    let methods = vec![
        ("b".to_string(), json(r#"{"type":"number"}"#), json(r#"{"type":"boolean"}"#)),
        ("a".to_string(), json("true"), json("false")),
    ];
    let r = fluxrpc_core::schema::request_envelopes(&methods);
    assert_eq!(r.len(), 2);
    assert_eq!(r[0].0, "b");
    assert_eq!(
        r[0].1,
        request_schema("b", method_schema("b", json(r#"{"type":"number"}"#), json(r#"{"type":"boolean"}"#)))
    );
    assert_eq!(r[1].0, "a");
    assert_eq!(r[1].1, request_schema("a", method_schema("a", json("true"), json("false"))));
}
