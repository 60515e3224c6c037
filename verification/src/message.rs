//! The protocol's messages: requests, responses and events, and how each is
//! written as, and read back from, a JSON document.
//!
//! ```text
//! request:   {"id": .., "method": .., "params": ..}
//! result:    {"id": .., "result": ..}
//! error:     {"id": .., "error": {"code": .., "message": .., "data": ..}}
//! event:     {"event": .., "data": ..}
//! ```
use vstd::prelude::*;
use vstd::string::*;

use crate::json::{json_model, opt_model, JsonModel};
use crate::text::{push_signed_decimal, signed_decimal, str_equal};

verus! {

/// A message on the wire: a request, a response to one, or an event.
#[derive(Debug, Clone)]
pub enum Message {
    Request(Request),
    Response(Response),
    Event(Event),
}

/// A call of `method` that the other side answers with a `Response` of the
/// same `id`.
#[derive(Debug, Clone)]
pub struct Request {
    pub id: String,
    pub method: String,
    pub params: Option<serde_json::Value>,
}

/// The answer to a request.
#[derive(Debug, Clone)]
pub enum Response {
    Success(RequestResult),
    Error(RequestError),
}

/// A successful answer.
#[derive(Debug, Clone)]
pub struct RequestResult {
    pub id: String,
    pub result: serde_json::Value,
}

/// A failed answer.
#[derive(Debug, Clone)]
pub struct RequestError {
    pub id: String,
    pub error: ErrorBody,
}

/// What went wrong with a request.
#[derive(Debug, Clone)]
pub struct ErrorBody {
    pub code: ErrorCode,
    pub message: String,
    pub data: Option<serde_json::Value>,
}

/// An error code: one of the standard ones, or any other number.
#[derive(Debug, Clone, Copy, PartialEq, Eq, Structural)]
pub enum ErrorCode {
    Standard(StandardErrorCode),
    Custom(i32),
}

/// The error codes the library itself produces, named after the HTTP
/// statuses whose numbers they carry (see `StandardErrorCode::value`).
#[derive(Debug, Clone, Copy, PartialEq, Eq, Structural)]
pub enum StandardErrorCode {
    NotFound,
    Unauthorized,
    RequestTimeout,
    InternalError,
    NotImplemented,
}

/// A one-way notification: no answer is expected.
#[derive(Debug, Clone)]
pub struct Event {
    pub event: String,
    pub data: Option<serde_json::Value>,
}

// ---------------------------------------------------------------------------
// Models
// ---------------------------------------------------------------------------
pub struct RequestModel {
    pub id: Seq<char>,
    pub method: Seq<char>,
    pub params: Option<JsonModel>,
}

pub struct RequestResultModel {
    pub id: Seq<char>,
    pub result: JsonModel,
}

pub struct ErrorBodyModel {
    pub code: ErrorCode,
    pub message: Seq<char>,
    pub data: Option<JsonModel>,
}

pub struct RequestErrorModel {
    pub id: Seq<char>,
    pub error: ErrorBodyModel,
}

pub enum ResponseModel {
    Success(RequestResultModel),
    Error(RequestErrorModel),
}

pub struct EventModel {
    pub event: Seq<char>,
    pub data: Option<JsonModel>,
}

pub enum MessageModel {
    Request(RequestModel),
    Response(ResponseModel),
    Event(EventModel),
}

impl View for Request {
    type V = RequestModel;

    open spec fn view(&self) -> RequestModel {
        RequestModel { id: self.id@, method: self.method@, params: opt_model(self.params) }
    }
}

impl View for RequestResult {
    type V = RequestResultModel;

    open spec fn view(&self) -> RequestResultModel {
        RequestResultModel { id: self.id@, result: json_model(self.result) }
    }
}

impl View for ErrorBody {
    type V = ErrorBodyModel;

    open spec fn view(&self) -> ErrorBodyModel {
        ErrorBodyModel { code: self.code, message: self.message@, data: opt_model(self.data) }
    }
}

impl View for RequestError {
    type V = RequestErrorModel;

    open spec fn view(&self) -> RequestErrorModel {
        RequestErrorModel { id: self.id@, error: self.error@ }
    }
}

impl View for Response {
    type V = ResponseModel;

    open spec fn view(&self) -> ResponseModel {
        match self {
            Response::Success(r) => ResponseModel::Success(r@),
            Response::Error(e) => ResponseModel::Error(e@),
        }
    }
}

impl View for Event {
    type V = EventModel;

    open spec fn view(&self) -> EventModel {
        EventModel { event: self.event@, data: opt_model(self.data) }
    }
}

impl View for Message {
    type V = MessageModel;

    open spec fn view(&self) -> MessageModel {
        match self {
            Message::Request(r) => MessageModel::Request(r@),
            Message::Response(r) => MessageModel::Response(r@),
            Message::Event(e) => MessageModel::Event(e@),
        }
    }
}

impl ResponseModel {
    pub open spec fn id(self) -> Seq<char> {
        match self {
            ResponseModel::Success(r) => r.id,
            ResponseModel::Error(e) => e.id,
        }
    }
}

// ---------------------------------------------------------------------------
// Standard codes
// ---------------------------------------------------------------------------
impl StandardErrorCode {
    /// The name of the code, as written on the wire and in texts.
    pub open spec fn spec_name(self) -> Seq<char> {
        match self {
            StandardErrorCode::NotFound => "NotFound"@,
            StandardErrorCode::Unauthorized => "Unauthorized"@,
            StandardErrorCode::RequestTimeout => "RequestTimeout"@,
            StandardErrorCode::InternalError => "InternalError"@,
            StandardErrorCode::NotImplemented => "NotImplemented"@,
        }
    }

    /// The HTTP status number the code stands for.
    pub open spec fn spec_value(self) -> i32 {
        match self {
            StandardErrorCode::NotFound => 404,
            StandardErrorCode::Unauthorized => 401,
            StandardErrorCode::RequestTimeout => 408,
            StandardErrorCode::InternalError => 500,
            StandardErrorCode::NotImplemented => 501,
        }
    }

    /// The name of the code (what `{:?}` and `{}` print).
    pub fn name(&self) -> (r: &'static str)
        ensures
            r@ == self.spec_name(),
    {
        proof {
            reveal_strlit("NotFound");
            reveal_strlit("Unauthorized");
            reveal_strlit("RequestTimeout");
            reveal_strlit("InternalError");
            reveal_strlit("NotImplemented");
        }
        match self {
            StandardErrorCode::NotFound => "NotFound",
            StandardErrorCode::Unauthorized => "Unauthorized",
            StandardErrorCode::RequestTimeout => "RequestTimeout",
            StandardErrorCode::InternalError => "InternalError",
            StandardErrorCode::NotImplemented => "NotImplemented",
        }
    }

    /// The HTTP status number of the code.
    pub fn value(&self) -> (r: i32)
        ensures
            r == self.spec_value(),
    {
        match self {
            StandardErrorCode::NotFound => 404,
            StandardErrorCode::Unauthorized => 401,
            StandardErrorCode::RequestTimeout => 408,
            StandardErrorCode::InternalError => 500,
            StandardErrorCode::NotImplemented => 501,
        }
    }

    /// The code whose name is `name`, if any.
    pub fn from_name(name: &str) -> (r: Option<StandardErrorCode>)
        ensures
            r == standard_code_named(name@),
    {
        proof {
            reveal_strlit("NotFound");
            reveal_strlit("Unauthorized");
            reveal_strlit("RequestTimeout");
            reveal_strlit("InternalError");
            reveal_strlit("NotImplemented");
        }
        if str_equal(name, "NotFound") {
            Some(StandardErrorCode::NotFound)
        } else if str_equal(name, "Unauthorized") {
            Some(StandardErrorCode::Unauthorized)
        } else if str_equal(name, "RequestTimeout") {
            Some(StandardErrorCode::RequestTimeout)
        } else if str_equal(name, "InternalError") {
            Some(StandardErrorCode::InternalError)
        } else if str_equal(name, "NotImplemented") {
            Some(StandardErrorCode::NotImplemented)
        } else {
            None
        }
    }
}

/// The standard code with that name, if any.
pub open spec fn standard_code_named(name: Seq<char>) -> Option<StandardErrorCode> {
    if name == "NotFound"@ {
        Some(StandardErrorCode::NotFound)
    } else if name == "Unauthorized"@ {
        Some(StandardErrorCode::Unauthorized)
    } else if name == "RequestTimeout"@ {
        Some(StandardErrorCode::RequestTimeout)
    } else if name == "InternalError"@ {
        Some(StandardErrorCode::InternalError)
    } else if name == "NotImplemented"@ {
        Some(StandardErrorCode::NotImplemented)
    } else {
        None
    }
}

impl From<StandardErrorCode> for ErrorCode {
    fn from(c: StandardErrorCode) -> (r: ErrorCode) {
        ErrorCode::Standard(c)
    }
}

impl vstd::std_specs::convert::FromSpecImpl<StandardErrorCode> for ErrorCode {
    open spec fn obeys_from_spec() -> bool {
        true
    }

    open spec fn from_spec(c: StandardErrorCode) -> ErrorCode {
        ErrorCode::Standard(c)
    }
}

impl ErrorCode {
    /// What `{}` prints: the name of a standard code, the number of another.
    pub open spec fn spec_display(self) -> Seq<char> {
        match self {
            ErrorCode::Standard(c) => c.spec_name(),
            ErrorCode::Custom(n) => signed_decimal(n as int),
        }
    }

    /// What `{:?}` prints: `Standard(Name)` or `Custom(number)`.
    pub open spec fn spec_debug(self) -> Seq<char> {
        match self {
            ErrorCode::Standard(c) => "Standard("@ + c.spec_name() + ")"@,
            ErrorCode::Custom(n) => "Custom("@ + signed_decimal(n as int) + ")"@,
        }
    }

    /// The text of the code (its `Display`).
    pub fn to_text(&self) -> (r: String)
        ensures
            r@ == self.spec_display(),
    {
        match self {
            ErrorCode::Standard(c) => String::from_str(c.name()),
            ErrorCode::Custom(n) => {
                let mut s = String::new();
                push_signed_decimal(&mut s, *n as i64);
                s
            },
        }
    }

    /// The debug text of the code (its `Debug`).
    pub fn debug_text(&self) -> (r: String)
        ensures
            r@ == self.spec_debug(),
    {
        proof {
            reveal_strlit("Standard(");
            reveal_strlit("Custom(");
            reveal_strlit(")");
        }
        match self {
            ErrorCode::Standard(c) => {
                let mut s = String::from_str("Standard(");
                s.append(c.name());
                s.append(")");
                s
            },
            ErrorCode::Custom(n) => {
                let mut s = String::from_str("Custom(");
                push_signed_decimal(&mut s, *n as i64);
                s.append(")");
                s
            },
        }
    }
}

// ---------------------------------------------------------------------------
// Constructors and accessors
// ---------------------------------------------------------------------------
/// Whether `c` is one of the characters of nanoid's URL-safe alphabet.
pub open spec fn is_id_char(c: char) -> bool {
    ('a' <= c && c <= 'z') || ('A' <= c && c <= 'Z') || ('0' <= c && c <= '9') || c == '_' || c
        == '-'
}

/// `nanoid!()` (`nanoid::format` with the default generator): a random id of 21 characters from the URL-safe alphabet
/// `_-0-9a-zA-Z`. Which id comes out is left to chance.
#[verifier::external_body]
fn fresh_id() -> (r: String)
    ensures
        r@.len() == 21,
        forall|i: int| 0 <= i < r@.len() ==> is_id_char(#[trigger] r@[i]),
{
    nanoid::format(nanoid::rngs::default, &nanoid::alphabet::SAFE, 21)
}

impl Request {
    /// A request of `method` with a fresh random id.
    pub fn new(method: &str, params: Option<serde_json::Value>) -> (r: Request)
        ensures
            r.method@ == method@,
            r@.params == opt_model(params),
            r.id@.len() == 21,
            forall|i: int| 0 <= i < r.id@.len() ==> is_id_char(#[trigger] r.id@[i]),
    {
        Request { id: fresh_id(), method: String::from_str(method), params }
    }
}

impl Response {
    /// The id of the request this answers.
    pub fn id(&self) -> (r: &str)
        ensures
            r@ == self@.id(),
    {
        match self {
            Response::Success(result) => result.id.as_str(),
            Response::Error(error) => error.id.as_str(),
        }
    }

    pub fn is_ok(&self) -> (r: bool)
        ensures
            r == (self is Success),
    {
        match self {
            Response::Success(_) => true,
            Response::Error(_) => false,
        }
    }

    pub fn is_error(&self) -> (r: bool)
        ensures
            r == (self is Error),
    {
        match self {
            Response::Success(_) => false,
            Response::Error(_) => true,
        }
    }
}

impl ErrorBody {
    /// An internal error with the given message and no data.
    pub fn internal_error(message: String) -> (r: ErrorBody)
        ensures
            r@ == (ErrorBodyModel {
                code: ErrorCode::Standard(StandardErrorCode::InternalError),
                message: message@,
                data: None,
            }),
    {
        ErrorBody {
            code: ErrorCode::Standard(StandardErrorCode::InternalError),
            message,
            data: None,
        }
    }

    /// The error a request is answered with when its params do not decode
    /// into what the handler takes; `detail` says why.
    pub fn invalid_params(detail: &str) -> (r: ErrorBody)
        ensures
            r@ == (ErrorBodyModel {
                code: ErrorCode::Standard(StandardErrorCode::InternalError),
                message: "Invalid params: "@ + detail@,
                data: None,
            }),
    {
        let mut message = String::from_str("Invalid params: ");
        message.append(detail);
        ErrorBody::internal_error(message)
    }

    /// The error a request is answered with when the handler's result does
    /// not encode as JSON; `detail` says why.
    pub fn serialization_error(detail: &str) -> (r: ErrorBody)
        ensures
            r@ == (ErrorBodyModel {
                code: ErrorCode::Standard(StandardErrorCode::InternalError),
                message: "Serialization error: "@ + detail@,
                data: None,
            }),
    {
        let mut message = String::from_str("Serialization error: ");
        message.append(detail);
        ErrorBody::internal_error(message)
    }

    /// The body of a timeout error.
    pub open spec fn timeout_model() -> ErrorBodyModel {
        ErrorBodyModel {
            code: ErrorCode::Standard(StandardErrorCode::RequestTimeout),
            message: "Request timeout"@,
            data: None,
        }
    }

    /// The error a request gets that no answer reached in time.
    pub fn timeout() -> (r: ErrorBody)
        ensures
            r@ == Self::timeout_model(),
    {
        ErrorBody {
            code: ErrorCode::Standard(StandardErrorCode::RequestTimeout),
            message: String::from_str("Request timeout"),
            data: None,
        }
    }

    /// The error body as the outcome of a request handler: always `Err`.
    pub fn into_result(self) -> (r: Result<serde_json::Value, ErrorBody>)
        ensures
            r matches Err(e) && e@ == self@,
    {
        Err(self)
    }
}

impl RequestError {
    /// What `{}` prints: `RequestError[code=<debug code>]: <message>`.
    pub open spec fn spec_display(self) -> Seq<char> {
        "RequestError[code="@ + self.error.code.spec_debug() + "]: "@ + self.error.message@
    }

    /// The text of the error (its `Display`).
    pub fn to_text(&self) -> (r: String)
        ensures
            r@ == self.spec_display(),
    {
        proof {
            reveal_strlit("RequestError[code=");
            reveal_strlit("]: ");
        }
        let mut s = String::from_str("RequestError[code=");
        let code = self.error.code.debug_text();
        s.append(code.as_str());
        s.append("]: ");
        s.append(self.error.message.as_str());
        s
    }
}

impl Event {
    /// An event named `event` whose payload is what serializing the caller's
    /// data gave: the payload is dropped where serializing failed.
    pub fn new(event: &str, data: Result<serde_json::Value, serde_json::Error>) -> (r: Event)
        ensures
            r.event@ == event@,
            r@.data == (match data {
                Ok(v) => Some(json_model(v)),
                Err(_) => None,
            }),
    {
        Event {
            event: String::from_str(event),
            data: match data {
                Ok(v) => Some(v),
                Err(_) => None,
            },
        }
    }
}

} // verus!
