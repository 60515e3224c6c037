use fluxrpc_core::{
    finish_request, reply, text_frame, ErrorBody, ErrorCode, Event, HandlerRoutes, Incoming,
    JsonCodec, Message, PendingRequests, Received, Request, RequestError, RequestResult, Response,
    RpcSessionError, StandardErrorCode, TransportMessage, WaitOutcome,
};
use serde_json::Value;

fn text(m: &Message) -> TransportMessage {
    text_frame(&JsonCodec::new(), m).ok().unwrap()
}

#[test]
fn pending_insert_and_remove() {
    let mut p: PendingRequests<u32> = PendingRequests::new();
    assert_eq!(p.len(), 0);
    assert_eq!(p.insert("a".to_string(), 1), None);
    assert_eq!(p.insert("b".to_string(), 2), None);
    assert_eq!(p.len(), 2);
    // the same id again replaces the waiter
    assert_eq!(p.insert("a".to_string(), 3), Some(1));
    assert_eq!(p.len(), 2);
    assert_eq!(p.remove("a"), Some(3));
    assert_eq!(p.remove("a"), None);
    assert_eq!(p.remove("zzz"), None);
    assert_eq!(p.len(), 1);
    assert_eq!(p.remove("b"), Some(2));
    assert_eq!(p.len(), 0);
}

#[test]
fn request_response_cycle() {
    // the ping/pong exchange between two sessions, decision by decision
    let codec = JsonCodec::new();
    let mut side_a: PendingRequests<&'static str> = PendingRequests::new();
    let mut side_b: PendingRequests<&'static str> = PendingRequests::new();
    let mut routes: HandlerRoutes<&'static str, u8> = HandlerRoutes::new();
    routes.register_request("ping", "ping handler");

    let req = Request::new("ping", None);
    let frame = side_a.begin_request(&codec, &req, "waiter-a").ok().unwrap();
    assert_eq!(side_a.len(), 1);

    let incoming = match side_b.receive(&codec, frame) {
        Received::Message(Incoming::Request(r)) => r,
        _ => panic!("side b should see a request"),
    };
    assert_eq!(incoming.id, req.id);
    let (handler, params) = routes.route_request(incoming.clone()).ok().unwrap();
    assert_eq!(*handler, "ping handler");
    assert_eq!(params, Value::Null);
    let answer = reply(incoming.id.clone(), Ok(Value::from("pong")));
    let back = text(&answer);

    let (waiter, response) = match side_a.receive(&codec, back) {
        Received::Message(Incoming::Answer(w, r)) => (w, r),
        _ => panic!("side a should see the answer"),
    };
    assert_eq!(waiter, "waiter-a");
    assert_eq!(side_a.len(), 0);
    let res = finish_request(req.id.clone(), WaitOutcome::Answered(response)).ok().unwrap();
    assert_eq!(res.id, req.id);
    assert_eq!(res.result, Value::from("pong"));
}

#[test]
fn unknown_method_is_answered_not_implemented() {
    let codec = JsonCodec::new();
    let routes: HandlerRoutes<u8, u8> = HandlerRoutes::new();
    let req = Request { id: "r9".to_string(), method: "add".to_string(), params: None };
    let outcome = match routes.route_request(req.clone()) {
        Ok(_) => panic!("no handler is registered"),
        Err(e) => Err(e),
    };
    let answer = reply(req.id.clone(), outcome);
    let bytes = codec.encode(&answer).ok().unwrap();
    assert_eq!(
        String::from_utf8(bytes).unwrap(),
        r#"{"id":"r9","error":{"code":"NotImplemented","message":"Method [add] is not implemented","data":null}}"#
    );
}

#[test]
fn receive_binary_undecodable_and_unsolicited() {
    let codec = JsonCodec::new();
    let mut p: PendingRequests<u8> = PendingRequests::new();
    p.insert("known".to_string(), 7);
    match p.receive(&codec, TransportMessage::Binary(vec![1, 2, 3])) {
        Received::Data(d) => assert_eq!(d, vec![1, 2, 3]),
        _ => panic!("binary frames are data"),
    }
    match p.receive(&codec, TransportMessage::Text(b"garbage".to_vec())) {
        Received::Undecodable(_) => {}
        _ => panic!("garbage is no message"),
    }
    let stray = Message::Response(Response::Success(RequestResult { id: "other".to_string(), result: Value::Null }));
    match p.receive(&codec, text(&stray)) {
        Received::Message(Incoming::Unsolicited(r)) => assert_eq!(r.id(), "other"),
        _ => panic!("an answer to no request is unsolicited"),
    }
    let evt = Message::Event(Event { event: "tick".to_string(), data: None });
    match p.receive(&codec, text(&evt)) {
        Received::Message(Incoming::Event(e)) => assert_eq!(e.event, "tick"),
        _ => panic!("events go to the handler"),
    }
    assert_eq!(p.len(), 1);
    let err = Message::Response(Response::Error(RequestError { id: "known".to_string(), error: ErrorBody::timeout() }));
    match p.receive(&codec, text(&err)) {
        Received::Message(Incoming::Answer(w, r)) => {
            assert_eq!(w, 7);
            assert!(r.is_error());
        }
        _ => panic!("the answer goes to its waiter"),
    }
    assert_eq!(p.len(), 0);
}

#[test]
fn finish_request_outcomes() {
    let ok = finish_request(
        "1".to_string(),
        WaitOutcome::Answered(Response::Success(RequestResult { id: "1".to_string(), result: Value::from(2) })),
    );
    assert_eq!(ok.ok().unwrap().result, Value::from(2));

    match finish_request("2".to_string(), WaitOutcome::TimedOut) {
        Err(RpcSessionError::Request(e)) => {
            assert_eq!(e.id, "2");
            assert_eq!(e.error.code, ErrorCode::Standard(StandardErrorCode::RequestTimeout));
            assert_eq!(e.error.message, "Request timeout");
        }
        _ => panic!("a timeout is a request error"),
    }
    match finish_request("3".to_string(), WaitOutcome::Abandoned("channel closed".to_string())) {
        Err(RpcSessionError::Request(e)) => {
            assert_eq!(e.id, "3");
            assert_eq!(e.error.code, ErrorCode::Standard(StandardErrorCode::InternalError));
            assert_eq!(e.error.message, "channel closed");
        }
        _ => panic!("a lost answer is an internal error"),
    }
    let failed = RequestError {
        id: "4".to_string(),
        error: ErrorBody { code: ErrorCode::Custom(403), message: "no".to_string(), data: None },
    };
    match finish_request("4".to_string(), WaitOutcome::Answered(Response::Error(failed))) {
        Err(e @ RpcSessionError::Request(_)) => {
            assert_eq!(e.to_text(), "request error: RequestError[code=Custom(403)]: no")
        }
        _ => panic!("an error answer is a request error"),
    }
    let t = RpcSessionError::Transport(anyhow::Error::msg("send failed"));
    assert_eq!(t.to_text(), "transport error: send failed");
}

#[test]
fn reply_keeps_request_id() {
    match reply("abc".to_string(), Err(ErrorBody::internal_error("x".to_string()))) {
        Message::Response(Response::Error(e)) => {
            assert_eq!(e.id, "abc");
            assert_eq!(e.error.message, "x");
        }
        _ => panic!("an error outcome is an error response"),
    }
    match reply("def".to_string(), Ok(Value::from(1))) {
        Message::Response(Response::Success(r)) => {
            assert_eq!(r.id, "def");
            assert_eq!(r.result, Value::from(1));
        }
        _ => panic!("a value is a result"),
    }
}
