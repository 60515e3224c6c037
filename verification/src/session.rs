//! The decisions an RPC session takes: what to send for a request, what to do
//! with each frame that arrives, how to answer a request, and what a caller
//! of `request` gets back. The session's I/O loop performs these decisions.
use vstd::prelude::*;
use vstd::string::*;

use crate::codec::{decoded, CodecError, JsonCodec};
use crate::json::{json_model, within_depth, JsonModel};
use crate::layout::{text_layout, written_once};
use crate::message::{
    ErrorBody, ErrorBodyModel, ErrorCode, Event, Message, MessageModel, Request,
    RequestError, RequestErrorModel, RequestModel, RequestResult, RequestResultModel, Response,
    ResponseModel, StandardErrorCode,
};
use crate::pending::PendingRequests;
use crate::transport::TransportMessage;
use crate::wire::{
    canon_payload, decode_message, lemma_message_json_round_trip, message_json, message_text,
};

verus! {

#[verifier::external_type_specification]
#[verifier::external_body]
pub struct ExAnyhowError(anyhow::Error);

/// The per-session state a handler may keep.
pub trait SessionState: Send + Sync + 'static {

}

impl SessionState for () {

}

/// Why a handler could not answer a request.
pub enum HandlerError {
    Unimplemented { method: String },
}

/// The error body a request for an unhandled `method` is answered with.
pub open spec fn unimplemented_body(method: Seq<char>) -> ErrorBodyModel {
    ErrorBodyModel {
        code: ErrorCode::Standard(StandardErrorCode::NotImplemented),
        message: "Method ["@ + method + "] is not implemented"@,
        data: None,
    }
}

impl HandlerError {
    /// The error body sent back for this error.
    pub fn into_error_body(self) -> (r: ErrorBody)
        ensures
            r@ == (match self {
                HandlerError::Unimplemented { method } => unimplemented_body(method@),
            }),
    {
        proof {
            reveal_strlit("Method [");
            reveal_strlit("] is not implemented");
        }
        match self {
            HandlerError::Unimplemented { method } => {
                let mut message = String::from_str("Method [");
                message.append(method.as_str());
                message.append("] is not implemented");
                ErrorBody {
                    code: ErrorCode::Standard(StandardErrorCode::NotImplemented),
                    message,
                    data: None,
                }
            },
        }
    }
}

/// Why `request` did not return a result.
pub enum RpcSessionError {
    /// The request could not be encoded or sent.
    Transport(anyhow::Error),
    /// The request was answered with an error, timed out, or lost its answer.
    Request(RequestError),
}

/// `format!("{}", e)` on an `anyhow::Error`: the `Display` text of the error
/// it wraps. That text comes from whatever error was wrapped (an OS error's
/// text, for one, depends on the locale), so nothing is stated of it.
#[verifier::external_body]
fn anyhow_text(e: &anyhow::Error) -> String {
    format!("{}", e)
}

impl RpcSessionError {
    /// The text of the error (its `Display`): `transport error: <error>` or
    /// `request error: <request error>`.
    pub fn to_text(&self) -> (r: String)
        ensures
            match self {
                RpcSessionError::Transport(_) => r@.len() >= 17 && r@.subrange(0, 17)
                    == "transport error: "@,
                RpcSessionError::Request(e) => r@ == "request error: "@ + e.spec_display(),
            },
    {
        proof {
            reveal_strlit("transport error: ");
            reveal_strlit("request error: ");
        }
        match self {
            RpcSessionError::Transport(e) => {
                let mut s = String::from_str("transport error: ");
                let t = anyhow_text(e);
                s.append(t.as_str());
                assert(s@.subrange(0, 17) =~= "transport error: "@);
                s
            },
            RpcSessionError::Request(e) => {
                let mut s = String::from_str("request error: ");
                let t = e.to_text();
                s.append(t.as_str());
                s
            },
        }
    }
}

// ---------------------------------------------------------------------------
// Sending
// ---------------------------------------------------------------------------
/// The text frame that carries `msg`. Encoding never fails.
pub fn text_frame(codec: &JsonCodec, msg: &Message) -> (r: Result<TransportMessage, CodecError>)
    ensures
        r matches Ok(TransportMessage::Text(bytes)) && bytes@ == message_text(msg@),
        r matches Ok(TransportMessage::Text(bytes)) ==> (within_depth(message_json(msg@), 127)
            ==> written_once(text_layout(bytes@))),
{
    match codec.encode(msg) {
        Ok(bytes) => Ok(TransportMessage::Text(bytes)),
        Err(e) => Err(e),
    }
}

impl<W> PendingRequests<W> {
    /// Starts a request: encodes it into the frame to send, and records that
    /// its answer goes to `waiter` (a waiter recorded before for the same id
    /// is dropped).
    pub fn begin_request(&mut self, codec: &JsonCodec, request: &Request, waiter: W) -> (r: Result<
        TransportMessage,
        CodecError,
    >)
        ensures
            r matches Ok(TransportMessage::Text(bytes)) && bytes@ == message_text(
                MessageModel::Request(request@),
            ),
            r matches Ok(TransportMessage::Text(bytes)) ==> (within_depth(
                message_json(MessageModel::Request(request@)),
                127,
            ) ==> written_once(text_layout(bytes@))),
            final(self)@ == old(self)@.insert(request.id@, waiter),
    {
        let msg = Message::Request(request.clone_request());
        let frame = text_frame(codec, &msg);
        let _displaced = self.insert(request.id.clone(), waiter);
        frame
    }
}

impl Request {
    /// A copy of the request.
    fn clone_request(&self) -> (r: Request)
        ensures
            r@ == self@,
    {
        Request {
            id: self.id.clone(),
            method: self.method.clone(),
            params: match &self.params {
                Some(v) => Some(v.clone()),
                None => None,
            },
        }
    }
}

// ---------------------------------------------------------------------------
// Receiving
// ---------------------------------------------------------------------------
/// What an arriving message asks of the session.
pub enum Incoming<W> {
    /// A request for the handler; its answer is to be sent back.
    Request(Request),
    /// An event for the handler.
    Event(Event),
    /// The answer to one of our requests, with the waiter it goes to.
    Answer(W, Response),
    /// An answer to no request in flight.
    Unsolicited(Response),
}

/// What an arriving frame asks of the session.
pub enum Received<W> {
    /// Raw data for the handler.
    Data(Vec<u8>),
    /// A message.
    Message(Incoming<W>),
    /// Text that is no message; it is skipped.
    Undecodable(CodecError),
}

/// The waiters left after message `m` arrives: an answer takes out the
/// waiter of its id; anything else leaves them as they are.
pub open spec fn after_arrival<W>(pending: Map<Seq<char>, W>, m: MessageModel) -> Map<
    Seq<char>,
    W,
> {
    match m {
        MessageModel::Response(r) => pending.remove(r.id()),
        _ => pending,
    }
}

/// The waiter that message `m` is handed to, if any.
pub open spec fn answered_waiter<W>(pending: Map<Seq<char>, W>, m: MessageModel) -> Option<W> {
    match m {
        MessageModel::Response(r) => if pending.contains_key(r.id()) {
            Some(pending[r.id()])
        } else {
            None
        },
        _ => None,
    }
}

/// `inc` is what message `m` asks of a session whose waiters are `pending`.
pub open spec fn incoming_for<W>(inc: Incoming<W>, pending: Map<Seq<char>, W>, m: MessageModel) -> bool {
    match m {
        MessageModel::Request(r) => inc matches Incoming::Request(x) && x@ == r,
        MessageModel::Event(e) => inc matches Incoming::Event(x) && x@ == e,
        MessageModel::Response(r) => match answered_waiter(pending, m) {
            Some(w) => inc matches Incoming::Answer(x, y) && x == w && y@ == r,
            None => inc matches Incoming::Unsolicited(y) && y@ == r,
        },
    }
}

impl<W> PendingRequests<W> {
    /// Decides what an arriving message asks for: requests and events go to
    /// the handler, an answer goes to the waiter of its id.
    pub fn accept(&mut self, msg: Message) -> (r: Incoming<W>)
        ensures
            final(self)@ == after_arrival(old(self)@, msg@),
            incoming_for(r, old(self)@, msg@),
            msg matches Message::Request(q) ==> r matches Incoming::Request(x) && x@ == q@
                && final(self)@ == old(self)@,
            msg matches Message::Event(e) ==> r matches Incoming::Event(x) && x@ == e@
                && final(self)@ == old(self)@,
            msg matches Message::Response(res) ==> final(self)@ == old(self)@.remove(res@.id()),
            msg matches Message::Response(res) ==> (old(self)@.contains_key(res@.id()) ==> (
            r matches Incoming::Answer(w, y) && w == old(self)@[res@.id()] && y@ == res@)),
            msg matches Message::Response(res) ==> (!old(self)@.contains_key(res@.id()) ==> (r matches Incoming::Unsolicited(y) && y@
                == res@)),
    {
        match msg {
            Message::Request(req) => Incoming::Request(req),
            Message::Event(evt) => Incoming::Event(evt),
            Message::Response(res) => match self.remove(res.id()) {
                Some(w) => Incoming::Answer(w, res),
                None => Incoming::Unsolicited(res),
            },
        }
    }

    /// Decides what an arriving frame asks for: binary frames are data for
    /// the handler, text frames are decoded and accepted as messages.
    pub fn receive(&mut self, codec: &JsonCodec, frame: TransportMessage) -> (r: Received<W>)
        ensures
            match frame {
                TransportMessage::Binary(data) => r matches Received::Data(d) && d@ == data@
                    && final(self)@ == old(self)@,
                TransportMessage::Text(bytes) => match decoded(bytes@) {
                    None => r matches Received::Undecodable(_) && final(self)@ == old(self)@,
                    Some(m) => r matches Received::Message(inc) && incoming_for(
                        inc,
                        old(self)@,
                        m,
                    ) && final(self)@ == after_arrival(old(self)@, m),
                },
            },
            frame matches TransportMessage::Text(bytes) ==> (decoded(bytes@) matches Some(
                MessageModel::Request(q),
            ) ==> r matches Received::Message(Incoming::Request(x)) && x@ == q && final(self)@
                == old(self)@),
            frame matches TransportMessage::Text(bytes) ==> (decoded(bytes@) matches Some(
                MessageModel::Event(e),
            ) ==> r matches Received::Message(Incoming::Event(x)) && x@ == e && final(self)@
                == old(self)@),
            frame matches TransportMessage::Text(bytes) ==> (decoded(bytes@) matches Some(
                MessageModel::Response(res),
            ) ==> final(self)@ == old(self)@.remove(res.id()) && (if old(self)@.contains_key(
                res.id(),
            ) {
                r matches Received::Message(Incoming::Answer(w, y)) && w == old(self)@[res.id()]
                    && y@ == res
            } else {
                r matches Received::Message(Incoming::Unsolicited(y)) && y@ == res
            })),
    {
        match frame {
            TransportMessage::Binary(data) => Received::Data(data),
            TransportMessage::Text(bytes) => match codec.decode(bytes.as_slice()) {
                Ok(msg) => Received::Message(self.accept(msg)),
                Err(e) => Received::Undecodable(e),
            },
        }
    }
}

// ---------------------------------------------------------------------------
// Answering
// ---------------------------------------------------------------------------
/// The answer to request `id` from a handler's outcome.
pub open spec fn reply_model(id: Seq<char>, outcome: Result<JsonModel, ErrorBodyModel>) -> MessageModel {
    match outcome {
        Ok(v) => MessageModel::Response(ResponseModel::Success(RequestResultModel { id, result: v })),
        Err(e) => MessageModel::Response(ResponseModel::Error(RequestErrorModel { id, error: e })),
    }
}

/// The model of a handler's outcome.
pub open spec fn outcome_model(outcome: Result<serde_json::Value, ErrorBody>) -> Result<JsonModel, ErrorBodyModel> {
    match outcome {
        Ok(v) => Ok(crate::json::json_model(v)),
        Err(e) => Err(e@),
    }
}

/// The message answering request `request_id` with the handler's outcome.
pub fn reply(request_id: String, outcome: Result<serde_json::Value, ErrorBody>) -> (r: Message)
    ensures
        r@ == reply_model(request_id@, outcome_model(outcome)),
        outcome matches Ok(v) ==> r matches Message::Response(Response::Success(x)) && x.id@
            == request_id@ && json_model(x.result) == json_model(v),
        outcome matches Err(e) ==> r matches Message::Response(Response::Error(x)) && x.id@
            == request_id@ && x.error@ == e@,
{
    match outcome {
        Ok(v) => Message::Response(Response::Success(RequestResult { id: request_id, result: v })),
        Err(e) => Message::Response(Response::Error(RequestError { id: request_id, error: e })),
    }
}

// ---------------------------------------------------------------------------
// Completing a request
// ---------------------------------------------------------------------------
/// How waiting for an answer ended.
pub enum WaitOutcome {
    /// The answer arrived.
    Answered(Response),
    /// No answer came in time.
    TimedOut,
    /// The waiter was dropped before an answer came; the text says why.
    Abandoned(String),
}

/// What `request` returns for request `id` once waiting has ended: the result
/// of a successful answer; the error of a failed one; a timeout error; or an
/// internal error carrying the reason the answer was lost.
pub fn finish_request(id: String, outcome: WaitOutcome) -> (r: Result<RequestResult, RpcSessionError>)
    ensures
        match outcome {
            WaitOutcome::Answered(Response::Success(ok)) => r matches Ok(x) && x@ == ok@,
            WaitOutcome::Answered(Response::Error(err)) => r matches Err(
                RpcSessionError::Request(e),
            ) && e@ == err@,
            WaitOutcome::TimedOut => r matches Err(RpcSessionError::Request(e)) && e@ == (
            RequestErrorModel { id: id@, error: ErrorBody::timeout_model() }),
            WaitOutcome::Abandoned(reason) => r matches Err(RpcSessionError::Request(e)) && e@ == (
            RequestErrorModel {
                id: id@,
                error: ErrorBodyModel {
                    code: ErrorCode::Standard(StandardErrorCode::InternalError),
                    message: reason@,
                    data: None,
                },
            }),
        },
{
    match outcome {
        WaitOutcome::Answered(Response::Success(ok)) => Ok(ok),
        WaitOutcome::Answered(Response::Error(err)) => Err(RpcSessionError::Request(err)),
        WaitOutcome::TimedOut => Err(
            RpcSessionError::Request(RequestError { id, error: ErrorBody::timeout() }),
        ),
        WaitOutcome::Abandoned(reason) => Err(
            RpcSessionError::Request(RequestError { id, error: ErrorBody::internal_error(reason) }),
        ),
    }
}

// ---------------------------------------------------------------------------
// Laws
// ---------------------------------------------------------------------------
/// An answer is handed to the waiter recorded for its id, and that waiter is
/// no longer waiting afterwards.
pub proof fn lemma_answer_reaches_waiter<W>(
    pending: Map<Seq<char>, W>,
    id: Seq<char>,
    waiter: W,
    answer: ResponseModel,
)
    requires
        answer.id() == id,
    ensures
        answered_waiter(pending.insert(id, waiter), MessageModel::Response(answer)) == Some(waiter),
        after_arrival(pending.insert(id, waiter), MessageModel::Response(answer)) == pending.remove(
            id,
        ),
{
    assert(pending.insert(id, waiter).remove(id) =~= pending.remove(id));
}

/// Requests and events leave the waiters alone and are handed to no waiter;
/// an answer whose id no waiter is recorded for changes nothing either.
pub proof fn lemma_only_answers_take_waiters<W>(pending: Map<Seq<char>, W>, m: MessageModel)
    requires
        !(m matches MessageModel::Response(r) && pending.contains_key(r.id())),
    ensures
        after_arrival(pending, m) == pending,
        answered_waiter(pending, m) is None,
{
    if let MessageModel::Response(r) = m {
        assert(pending.remove(r.id()) =~= pending);
    }
}

/// What an arriving message asks of a session is the message itself, handed
/// on whole: a request or an event to the handler with all its fields, an
/// answer to the waiter recorded for its id, unchanged; only an answer whose
/// id has no waiter is left unsolicited.
pub proof fn lemma_arrivals_are_handed_on_whole<W>(
    inc: Incoming<W>,
    pending: Map<Seq<char>, W>,
    m: MessageModel,
)
    requires
        incoming_for(inc, pending, m),
    ensures
        m matches MessageModel::Request(q) ==> inc matches Incoming::Request(x) && x@.id == q.id
            && x@.method == q.method && x@.params == q.params,
        m matches MessageModel::Event(e) ==> inc matches Incoming::Event(x) && x@.event == e.event
            && x@.data == e.data,
        m matches MessageModel::Response(res) ==> (pending.contains_key(res.id()) ==> (inc matches Incoming::Answer(w, y) && w
            == pending[res.id()] && y@ == res)),
        m matches MessageModel::Response(res) ==> (!pending.contains_key(res.id()) ==> (inc matches Incoming::Unsolicited(y) && y@
            == res)),
{
}

/// The answer to a request carries the request's id and the handler's
/// outcome whole: a result as the successful answer's result, an error body
/// (code, message and data) as the failed answer's error.
pub proof fn lemma_reply_carries_outcome(id: Seq<char>, outcome: Result<JsonModel, ErrorBodyModel>)
    ensures
        reply_model(id, outcome) matches MessageModel::Response(res) && res.id() == id,
        outcome matches Ok(v) ==> reply_model(id, outcome) matches MessageModel::Response(
            ResponseModel::Success(x),
        ) && x.result == v,
        outcome matches Err(e) ==> reply_model(id, outcome) matches MessageModel::Response(
            ResponseModel::Error(x),
        ) && x.error.code == e.code && x.error.message == e.message && x.error.data == e.data,
{
}

/// A handler's outcome is taken as it is: a result by its document, an
/// error body by all of its fields.
pub proof fn lemma_outcome_model_keeps_all(outcome: Result<serde_json::Value, ErrorBody>)
    ensures
        outcome matches Ok(v) ==> outcome_model(outcome) == Ok::<JsonModel, ErrorBodyModel>(
            crate::json::json_model(v),
        ),
        outcome matches Err(e) ==> outcome_model(outcome) matches Err(b) && b.code == e.code
            && b.message == e.message@ && b.data == crate::json::opt_model(e.data),
{
}

/// The request/answer cycle: the peer reads the request it is sent (a
/// `null` params as absent); whatever its handler's outcome, the answer it
/// sends back reads, on this side, as an answer carrying that request's id,
/// so it is handed to the waiter recorded when the request was sent.
pub proof fn lemma_request_cycle<W>(
    pending: Map<Seq<char>, W>,
    waiter: W,
    r: RequestModel,
    outcome: Result<JsonModel, ErrorBodyModel>,
)
    ensures
        decode_message(message_json(MessageModel::Request(r))) == Some(
            MessageModel::Request(RequestModel { params: canon_payload(r.params), ..r }),
        ),
        decode_message(message_json(reply_model(r.id, outcome))) matches Some(answer)
            && answer matches MessageModel::Response(resp) && resp.id() == r.id
            && answered_waiter(pending.insert(r.id, waiter), answer) == Some(waiter)
            && after_arrival(pending.insert(r.id, waiter), answer) == pending.remove(r.id),
{
    lemma_message_json_round_trip(MessageModel::Request(r));
    let reply = reply_model(r.id, outcome);
    lemma_message_json_round_trip(reply);
    assert(pending.insert(r.id, waiter).remove(r.id) =~= pending.remove(r.id));
}

} // verus!
