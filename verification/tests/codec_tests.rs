use fluxrpc_core::{
    CodecError, ErrorBody, ErrorCode, Event, JsonCodec, Message, Request, RequestError,
    RequestResult, Response, StandardErrorCode,
};
use serde_json::Value;

fn json(text: &str) -> Value {
    serde_json::from_str(text).unwrap()
}

fn encode_text(m: &Message) -> String {
    let bytes = JsonCodec::new().encode(m).ok().unwrap();
    String::from_utf8(bytes).unwrap()
}

fn decode_text(text: &str) -> Result<Message, CodecError> {
    JsonCodec::new().decode(text.as_bytes())
}

#[test]
fn encodes_each_kind() {
    let req = Message::Request(Request {
        id: "req_1234".to_string(),
        method: "add".to_string(),
        params: Some(json("[1,2,3]")),
    });
    assert_eq!(encode_text(&req), r#"{"id":"req_1234","method":"add","params":[1,2,3]}"#);

    let req = Message::Request(Request { id: "x".to_string(), method: "m".to_string(), params: None });
    assert_eq!(encode_text(&req), r#"{"id":"x","method":"m","params":null}"#);

    let ok = Message::Response(Response::Success(RequestResult {
        id: "req_1234".to_string(),
        result: Value::from("Hello world"),
    }));
    assert_eq!(encode_text(&ok), r#"{"id":"req_1234","result":"Hello world"}"#);

    let err = Message::Response(Response::Error(RequestError {
        id: "r".to_string(),
        error: ErrorBody {
            code: ErrorCode::Standard(StandardErrorCode::NotFound),
            message: "nope".to_string(),
            data: None,
        },
    }));
    assert_eq!(
        encode_text(&err),
        r#"{"id":"r","error":{"code":"NotFound","message":"nope","data":null}}"#
    );

    let custom = Message::Response(Response::Error(RequestError {
        id: "r".to_string(),
        error: ErrorBody { code: ErrorCode::Custom(-3), message: "m".to_string(), data: Some(Value::from(true)) },
    }));
    assert_eq!(
        encode_text(&custom),
        r#"{"id":"r","error":{"code":-3,"message":"m","data":true}}"#
    );

    let evt = Message::Event(Event { event: "tick".to_string(), data: Some(Value::from(5)) });
    assert_eq!(encode_text(&evt), r#"{"event":"tick","data":5}"#);
}

#[test]
fn decodes_the_documented_examples() {
    match decode_text(r#"{"event": "my_custom_event", "data": {"message": "data can be any payload"}}"#) {
        Ok(Message::Event(e)) => {
            assert_eq!(e.event, "my_custom_event");
            assert_eq!(e.data, Some(json(r#"{"message": "data can be any payload"}"#)));
        }
        _ => panic!("expected an event"),
    }
    match decode_text(r#"{"id": "req_1234", "method": "print", "params": {"text": "Hello world", "color": false}}"#) {
        Ok(Message::Request(r)) => {
            assert_eq!(r.id, "req_1234");
            assert_eq!(r.method, "print");
            assert_eq!(r.params, Some(json(r#"{"text": "Hello world", "color": false}"#)));
        }
        _ => panic!("expected a request"),
    }
    match decode_text(r#"{"id": "req_1234", "result": "Hello world"}"#) {
        Ok(Message::Response(Response::Success(r))) => {
            assert_eq!(r.id, "req_1234");
            assert_eq!(r.result, Value::from("Hello world"));
        }
        _ => panic!("expected a result"),
    }
    let text = r#"{"id": "req_1234", "error": {"code": 403, "message": "Resource access forbidden",
        "data": {"username": "you@company.org", "roles": ["user"], "required_roles": ["manager"]}}}"#;
    match decode_text(text) {
        Ok(Message::Response(Response::Error(e))) => {
            assert_eq!(e.id, "req_1234");
            assert_eq!(e.error.code, ErrorCode::Custom(403));
            assert_eq!(e.error.message, "Resource access forbidden");
            assert_eq!(e.error.data.unwrap()["roles"], json(r#"["user"]"#));
        }
        _ => panic!("expected an error response"),
    }
}

#[test]
fn decode_tries_kinds_in_order() {
    // both a request and an event: read as the request
    match decode_text(r#"{"id":"1","method":"m","event":"e"}"#) {
        Ok(Message::Request(r)) => assert_eq!(r.method, "m"),
        _ => panic!("expected a request"),
    }
    // a result and an error: read as the result
    match decode_text(r#"{"id":"1","result":null,"error":{"code":"NotFound","message":"x"}}"#) {
        Ok(Message::Response(Response::Success(r))) => assert_eq!(r.result, Value::Null),
        _ => panic!("expected a result"),
    }
    // a standard code by name
    match decode_text(r#"{"id":"1","error":{"code":"InternalError","message":"x"}}"#) {
        Ok(Message::Response(Response::Error(e))) => {
            assert_eq!(e.error.code, ErrorCode::Standard(StandardErrorCode::InternalError));
            assert!(e.error.data.is_none());
        }
        _ => panic!("expected an error response"),
    }
}

#[test]
fn decode_failures() {
    assert!(matches!(decode_text("{not json"), Err(CodecError::Syntax(_))));
    assert!(matches!(decode_text(""), Err(CodecError::Syntax(_))));
    assert!(matches!(decode_text("[1,2]"), Err(CodecError::NotAMessage)));
    assert!(matches!(decode_text(r#"{"id":1,"method":"m"}"#), Err(CodecError::NotAMessage)));
    assert!(matches!(decode_text(r#"{"event":5}"#), Err(CodecError::NotAMessage)));
    // a code that is neither a standard name nor an i32
    assert!(matches!(
        decode_text(r#"{"id":"1","error":{"code":"Teapot","message":"x"}}"#),
        Err(CodecError::NotAMessage)
    ));
    assert!(matches!(
        decode_text(r#"{"id":"1","error":{"code":2147483648,"message":"x"}}"#),
        Err(CodecError::NotAMessage)
    ));
    assert!(matches!(
        decode_text(r#"{"id":"1","error":{"code":1.5,"message":"x"}}"#),
        Err(CodecError::NotAMessage)
    ));
    // the message text is required
    assert!(matches!(
        decode_text(r#"{"id":"1","error":{"code":404}}"#),
        Err(CodecError::NotAMessage)
    ));
}

#[test]
fn round_trip_keeps_messages() {
    let codec = JsonCodec::new();
    let msgs = vec![
        Message::Request(Request { id: "a".to_string(), method: "m".to_string(), params: Some(json(r#"{"x":[1.5,-2,"s"]}"#)) }),
        Message::Response(Response::Success(RequestResult { id: "b".to_string(), result: Value::Null })),
        Message::Response(Response::Error(RequestError {
            id: "c".to_string(),
            error: ErrorBody { code: ErrorCode::Custom(i32::MIN), message: "q\"uote".to_string(), data: Some(Value::from(0.1)) },
        })),
        Message::Event(Event { event: "e".to_string(), data: None }),
    ];
    for m in msgs {
        let bytes = codec.encode(&m).ok().unwrap();
        let back = codec.decode(&bytes).ok().unwrap();
        assert_eq!(format!("{:?}", back), format!("{:?}", m));
    }
}

#[test]
fn round_trip_reads_null_payload_as_absent() {
    let codec = JsonCodec::new();
    let m = Message::Event(Event { event: "e".to_string(), data: Some(Value::Null) });
    let back = codec.decode(&codec.encode(&m).ok().unwrap()).ok().unwrap();
    match back {
        Message::Event(e) => assert!(e.data.is_none()),
        _ => panic!("expected an event"),
    }
}

#[test]
fn encodes_members_in_field_order() {
    // the payload itself is a JSON value, printed with its keys sorted
    let req = Message::Request(Request {
        id: "z".to_string(),
        method: "a".to_string(),
        params: Some(json(r#"{"b":1,"a":2}"#)),
    });
    assert_eq!(encode_text(&req), r#"{"id":"z","method":"a","params":{"a":2,"b":1}}"#);
    let evt = Message::Event(Event { event: "e\"q".to_string(), data: None });
    assert_eq!(encode_text(&evt), r#"{"event":"e\"q","data":null}"#);
    let err = Message::Response(Response::Error(RequestError {
        id: "i".to_string(),
        error: ErrorBody { code: ErrorCode::Custom(2147483647), message: "".to_string(), data: Some(json("[]")) },
    }));
    assert_eq!(encode_text(&err), r#"{"id":"i","error":{"code":2147483647,"message":"","data":[]}}"#);
}

#[test]
fn decodes_array_forms() {
    match decode_text(r#"["1","m",null]"#) {
        Ok(Message::Request(r)) => {
            assert_eq!(r.id, "1");
            assert_eq!(r.method, "m");
            assert!(r.params.is_none());
        }
        _ => panic!("expected a request"),
    }
    match decode_text(r#"["1","m",{"a":1}]"#) {
        Ok(Message::Request(r)) => assert_eq!(r.params, Some(json(r#"{"a":1}"#))),
        _ => panic!("expected a request"),
    }
    // two items are read as a result before anything else
    match decode_text(r#"["1","m"]"#) {
        Ok(Message::Response(Response::Success(r))) => {
            assert_eq!(r.id, "1");
            assert_eq!(r.result, Value::from("m"));
        }
        _ => panic!("expected a result"),
    }
    // an error body as an array
    match decode_text(r#"{"id":"1","error":["NotFound","gone",7]}"#) {
        Ok(Message::Response(Response::Error(e))) => {
            assert_eq!(e.error.code, ErrorCode::Standard(StandardErrorCode::NotFound));
            assert_eq!(e.error.message, "gone");
            assert_eq!(e.error.data, Some(Value::from(7)));
        }
        _ => panic!("expected an error response"),
    }
    assert!(matches!(decode_text(r#"["a","b","c","d"]"#), Err(CodecError::NotAMessage)));
    assert!(matches!(decode_text(r#"[1,"b",null]"#), Err(CodecError::NotAMessage)));
}

#[test]
fn decodes_a_code_named_by_a_one_key_object() {
    match decode_text(r#"{"id":"1","error":{"code":{"Unauthorized":null},"message":"x"}}"#) {
        Ok(Message::Response(Response::Error(e))) => {
            assert_eq!(e.error.code, ErrorCode::Standard(StandardErrorCode::Unauthorized));
        }
        _ => panic!("expected an error response"),
    }
    for text in [
        r#"{"id":"1","error":{"code":{"NotFound":1},"message":"x"}}"#,
        r#"{"id":"1","error":{"code":{"NotFound":null,"Unauthorized":null},"message":"x"}}"#,
        r#"{"id":"1","error":{"code":{"Teapot":null},"message":"x"}}"#,
        r#"{"id":"1","error":{"code":{},"message":"x"}}"#,
    ] {
        assert!(matches!(decode_text(text), Err(CodecError::NotAMessage)), "{}", text);
    }
}

#[test]
fn round_trip_up_to_the_parser_depth() {
    let codec = JsonCodec::new();
    let nested = |levels: usize| json(&format!("{}{}", "[".repeat(levels), "]".repeat(levels)));
    // params nesting 126 levels inside the request object: 127 in all
    let m = Message::Request(Request { id: "d".to_string(), method: "m".to_string(), params: Some(nested(126)) });
    match codec.decode(&codec.encode(&m).ok().unwrap()) {
        Ok(Message::Request(r)) => assert_eq!(r.params, Some(nested(126))),
        _ => panic!("expected the request back"),
    }
    // one level more is past what the parser reads
    let m = Message::Request(Request { id: "d".to_string(), method: "m".to_string(), params: Some(nested(127)) });
    assert!(matches!(codec.decode(&codec.encode(&m).ok().unwrap()), Err(CodecError::Syntax(_))));
}

#[test]
fn a_field_given_twice_is_not_read() {
    // the example of a repeated id: no kind of message reads it
    assert!(matches!(decode_text(r#"{"id":"a","id":"b","method":"m"}"#), Err(CodecError::NotAMessage)));
    assert!(matches!(
        decode_text(r#"{ "id" : "a" , "id" : "b" , "method" : "m" }"#),
        Err(CodecError::NotAMessage)
    ));
    // the same name written with an escape
    assert!(matches!(
        decode_text(r#"{"id":"a","\u0069d":"b","method":"m"}"#),
        Err(CodecError::NotAMessage)
    ));
    // twice in the error body, or a code object naming its code twice
    assert!(matches!(
        decode_text(r#"{"id":"1","error":{"code":"NotFound","message":"x","message":"y"}}"#),
        Err(CodecError::NotAMessage)
    ));
    assert!(matches!(
        decode_text(r#"{"id":"1","error":{"code":{"NotFound":null,"NotFound":null},"message":"x"}}"#),
        Err(CodecError::NotAMessage)
    ));
    // a repeated id does not stop an event, which has no id field
    match decode_text(r#"{"event":"e","id":"a","id":"b"}"#) {
        Ok(Message::Event(e)) => assert_eq!(e.event, "e"),
        _ => panic!("expected an event"),
    }
    // names no kind reads may repeat, and payloads keep their last entry
    match decode_text(r#"{"id":"1","method":"m","x":1,"x":2,"params":{"a":1,"a":2}}"#) {
        Ok(Message::Request(r)) => assert_eq!(r.params, Some(json(r#"{"a":2}"#))),
        _ => panic!("expected a request"),
    }
}
