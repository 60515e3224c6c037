use fluxrpc_core::{
    ErrorBody, ErrorCode, Event, HandlerError, Request, RequestError, RequestResult, Response,
    StandardErrorCode,
};
use serde_json::Value;

#[test]
fn standard_codes_have_http_values_and_names() {
    assert_eq!(StandardErrorCode::NotFound.value(), 404);
    assert_eq!(StandardErrorCode::Unauthorized.value(), 401);
    assert_eq!(StandardErrorCode::RequestTimeout.value(), 408);
    assert_eq!(StandardErrorCode::InternalError.value(), 500);
    assert_eq!(StandardErrorCode::NotImplemented.value(), 501);
    assert_eq!(StandardErrorCode::NotFound.name(), "NotFound");
    assert_eq!(StandardErrorCode::NotImplemented.name(), "NotImplemented");
    assert_eq!(
        StandardErrorCode::from_name("RequestTimeout"),
        Some(StandardErrorCode::RequestTimeout)
    );
    assert_eq!(StandardErrorCode::from_name("requesttimeout"), None);
}

#[test]
fn standard_code_converts_into_error_code() {
    let code: ErrorCode = StandardErrorCode::Unauthorized.into();
    assert_eq!(code, ErrorCode::Standard(StandardErrorCode::Unauthorized));
}

#[test]
fn error_code_texts() {
    assert_eq!(ErrorCode::Standard(StandardErrorCode::NotFound).to_text(), "NotFound");
    assert_eq!(ErrorCode::Custom(42).to_text(), "42");
    assert_eq!(ErrorCode::Custom(-7).to_text(), "-7");
    assert_eq!(ErrorCode::Custom(i32::MIN).to_text(), "-2147483648");
    assert_eq!(
        ErrorCode::Standard(StandardErrorCode::NotFound).debug_text(),
        format!("{:?}", ErrorCode::Standard(StandardErrorCode::NotFound))
    );
    assert_eq!(ErrorCode::Custom(0).debug_text(), "Custom(0)");
    assert_eq!(ErrorCode::Custom(-12).debug_text(), format!("{:?}", ErrorCode::Custom(-12)));
}

#[test]
fn request_error_text() {
    let e = RequestError {
        id: "r1".to_string(),
        error: ErrorBody {
            code: ErrorCode::Standard(StandardErrorCode::NotFound),
            message: "no such thing".to_string(),
            data: None,
        },
    };
    assert_eq!(e.to_text(), "RequestError[code=Standard(NotFound)]: no such thing");
    let e = RequestError {
        id: "r2".to_string(),
        error: ErrorBody { code: ErrorCode::Custom(403), message: "forbidden".to_string(), data: None },
    };
    assert_eq!(e.to_text(), "RequestError[code=Custom(403)]: forbidden");
}

#[test]
fn response_accessors() {
    let ok = Response::Success(RequestResult { id: "a".to_string(), result: Value::from(1) });
    assert_eq!(ok.id(), "a");
    assert!(ok.is_ok());
    assert!(!ok.is_error());
    let err = Response::Error(RequestError {
        id: "b".to_string(),
        error: ErrorBody::timeout(),
    });
    assert_eq!(err.id(), "b");
    assert!(err.is_error());
    assert!(!err.is_ok());
}

#[test]
fn error_body_constructors() {
    let e = ErrorBody::internal_error("boom".to_string());
    assert_eq!(e.code, ErrorCode::Standard(StandardErrorCode::InternalError));
    assert_eq!(e.message, "boom");
    assert!(e.data.is_none());
    let t = ErrorBody::timeout();
    assert_eq!(t.code, ErrorCode::Standard(StandardErrorCode::RequestTimeout));
    assert_eq!(t.message, "Request timeout");
    assert!(t.data.is_none());
    match ErrorBody::timeout().into_result() {
        Err(e) => assert_eq!(e.message, "Request timeout"),
        Ok(_) => panic!("an error body is always an error"),
    }
}

#[test]
fn request_new_draws_fresh_ids() {
    let a = Request::new("ping", None);
    let b = Request::new("ping", Some(Value::from(3)));
    assert_eq!(a.method, "ping");
    assert_eq!(a.id.chars().count(), 21);
    assert!(a
        .id
        .chars()
        .all(|c| c.is_ascii_alphanumeric() || c == '_' || c == '-'));
    assert_ne!(a.id, b.id);
    assert_eq!(b.params, Some(Value::from(3)));
}

#[test]
fn event_new_keeps_serialized_data() {
    let e = Event::new("my_event", serde_json::to_value(vec![1, 2]));
    assert_eq!(e.event, "my_event");
    assert_eq!(e.data, Some(serde_json::from_str::<Value>("[1,2]").unwrap()));
    // serializing `None` gives `null`, which is kept as a payload
    let none: Option<u8> = None;
    let e = Event::new("empty", serde_json::to_value(none));
    assert_eq!(e.data, Some(Value::Null));
    // a failed serialization drops the payload
    let mut bad = std::collections::BTreeMap::new();
    bad.insert(vec![1u8], 1u8);
    let e = Event::new("bad", serde_json::to_value(bad));
    assert!(e.data.is_none());
}

#[test]
fn unimplemented_handler_error_body() {
    let body = HandlerError::Unimplemented { method: "add".to_string() }.into_error_body();
    assert_eq!(body.code, ErrorCode::Standard(StandardErrorCode::NotImplemented));
    assert_eq!(body.message, "Method [add] is not implemented");
    assert!(body.data.is_none());
}

#[test]
fn handler_failure_bodies() {
    let e = ErrorBody::invalid_params("missing field `a`");
    assert_eq!(e.code, ErrorCode::Standard(StandardErrorCode::InternalError));
    assert_eq!(e.message, "Invalid params: missing field `a`");
    assert!(e.data.is_none());
    let e = ErrorBody::serialization_error("key must be a string");
    assert_eq!(e.code, ErrorCode::Standard(StandardErrorCode::InternalError));
    assert_eq!(e.message, "Serialization error: key must be a string");
    assert!(e.data.is_none());
}
