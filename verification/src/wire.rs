//! How messages are laid out as JSON, both ways.
//!
//! A message is written as an object whose members come in field order. It is
//! read from a document by trying the kinds in order: a request (`id` and
//! `method` are strings), then a successful response (`id` is a string and
//! `result` is present), then a failed one (`id` is a string and `error` is an
//! error body), then an event (`event` is a string). Each kind is read from an
//! object or from the array of its fields in order. Fields not named are
//! ignored; an optional payload that is missing or `null` is absent.
use vstd::prelude::*;
use vstd::string::*;

use crate::json::{
    close_object, entries_object, is_ws, lemma_object_text_three, lemma_object_text_two,
    lemma_within_depth_mono, held_by_value, int_number, json_as_array, json_as_i64,
    json_as_object, json_as_str, json_get, json_map_len,
    json_i64, json_is_null, json_model, json_null, json_str, json_text, keys_distinct,
    leaf_members_model, leaf_members_text, leaf_model, members_fit, open_object, opt_model,
    plain_name, push_member, value_text, within_depth, written_model, written_object_model,
    written_fits, written_object_text, written_text, leaf_fits, JsonModel, JsonNumber, Leaf, Written,
};
use crate::layout::{
    error_once, event_once, lemma_field_words, lemma_fields_written_once, lemma_layout_error,
    lemma_layout_three, lemma_layout_two, read_alone, request_once, result_once, text_layout,
    written_once, TextLayout, TextShape,
};
use crate::message::{
    standard_code_named, ErrorBody, ErrorBodyModel, ErrorCode, Event, EventModel, Message,
    MessageModel, Request, RequestError, RequestErrorModel, RequestModel, RequestResult,
    RequestResultModel, Response, ResponseModel, StandardErrorCode,
};

verus! {

// ---------------------------------------------------------------------------
// Reading fields of a document
// ---------------------------------------------------------------------------
/// The entry `k` of an object; `None` if missing or if `j` is no object.
pub open spec fn field(j: JsonModel, k: Seq<char>) -> Option<JsonModel> {
    match j {
        JsonModel::Obj(entries) => if entries.contains_key(k) {
            Some(entries[k])
        } else {
            None
        },
        _ => None,
    }
}

/// The entry `k` if it is a string.
pub open spec fn text_field(j: JsonModel, k: Seq<char>) -> Option<Seq<char>> {
    match field(j, k) {
        Some(JsonModel::Str(s)) => Some(s),
        _ => None,
    }
}

/// An optional payload: a missing entry and `null` both mean none.
pub open spec fn payload_field(j: JsonModel, k: Seq<char>) -> Option<JsonModel> {
    match field(j, k) {
        Some(JsonModel::Null) => None,
        other => other,
    }
}

// ---------------------------------------------------------------------------
// Writing
// ---------------------------------------------------------------------------
/// The document of an optional payload: `null` when absent.
pub open spec fn opt_json(o: Option<JsonModel>) -> JsonModel {
    match o {
        Some(m) => m,
        None => JsonModel::Null,
    }
}

/// A standard code is written as its name, another code as its number.
pub open spec fn code_json(c: ErrorCode) -> JsonModel {
    match c {
        ErrorCode::Standard(s) => JsonModel::Str(s.spec_name()),
        ErrorCode::Custom(n) => JsonModel::Num(int_number(n as int)),
    }
}

pub open spec fn error_body_json(b: ErrorBodyModel) -> JsonModel {
    JsonModel::Obj(
        Map::empty().insert("code"@, code_json(b.code)).insert(
            "message"@,
            JsonModel::Str(b.message),
        ).insert("data"@, opt_json(b.data)),
    )
}

pub open spec fn request_json(r: RequestModel) -> JsonModel {
    JsonModel::Obj(
        Map::empty().insert("id"@, JsonModel::Str(r.id)).insert(
            "method"@,
            JsonModel::Str(r.method),
        ).insert("params"@, opt_json(r.params)),
    )
}

pub open spec fn response_json(r: ResponseModel) -> JsonModel {
    match r {
        ResponseModel::Success(ok) => JsonModel::Obj(
            Map::empty().insert("id"@, JsonModel::Str(ok.id)).insert("result"@, ok.result),
        ),
        ResponseModel::Error(err) => JsonModel::Obj(
            Map::empty().insert("id"@, JsonModel::Str(err.id)).insert(
                "error"@,
                error_body_json(err.error),
            ),
        ),
    }
}

pub open spec fn event_json(e: EventModel) -> JsonModel {
    JsonModel::Obj(
        Map::empty().insert("event"@, JsonModel::Str(e.event)).insert("data"@, opt_json(e.data)),
    )
}

/// The document a message is written as.
pub open spec fn message_json(m: MessageModel) -> JsonModel {
    match m {
        MessageModel::Request(r) => request_json(r),
        MessageModel::Response(r) => response_json(r),
        MessageModel::Event(e) => event_json(e),
    }
}

/// A payload as a member value: `null` when absent.
pub open spec fn payload_leaf(o: Option<JsonModel>) -> Leaf {
    match o {
        Some(j) => Leaf::Doc(j),
        None => Leaf::Null,
    }
}

/// A standard code is written as its name, another code as its number.
pub open spec fn code_leaf(c: ErrorCode) -> Leaf {
    match c {
        ErrorCode::Standard(s) => Leaf::Text(s.spec_name()),
        ErrorCode::Custom(n) => Leaf::Int(n as i64),
    }
}

/// The members of an error body, in field order.
pub open spec fn error_body_members(b: ErrorBodyModel) -> Seq<(Seq<char>, Leaf)> {
    seq![
        ("code"@, code_leaf(b.code)),
        ("message"@, Leaf::Text(b.message)),
        ("data"@, payload_leaf(b.data)),
    ]
}

/// The members of the object a message is written as, in field order.
pub open spec fn message_members(m: MessageModel) -> Seq<(Seq<char>, Written)> {
    match m {
        MessageModel::Request(r) => seq![
            ("id"@, Written::Plain(Leaf::Text(r.id))),
            ("method"@, Written::Plain(Leaf::Text(r.method))),
            ("params"@, Written::Plain(payload_leaf(r.params))),
        ],
        MessageModel::Response(ResponseModel::Success(r)) => seq![
            ("id"@, Written::Plain(Leaf::Text(r.id))),
            ("result"@, Written::Plain(Leaf::Doc(r.result))),
        ],
        MessageModel::Response(ResponseModel::Error(e)) => seq![
            ("id"@, Written::Plain(Leaf::Text(e.id))),
            ("error"@, Written::Object(error_body_members(e.error))),
        ],
        MessageModel::Event(e) => seq![
            ("event"@, Written::Plain(Leaf::Text(e.event))),
            ("data"@, Written::Plain(payload_leaf(e.data))),
        ],
    }
}

/// The bytes a message is written as: `{"id":..,"method":..,"params":..}`,
/// `{"id":..,"result":..}`, `{"id":..,"error":{"code":..,"message":..,"data":..}}`
/// or `{"event":..,"data":..}`, an absent payload as `null`.
pub open spec fn message_text(m: MessageModel) -> Seq<u8> {
    written_object_text(message_members(m))
}

// ---------------------------------------------------------------------------
// Reading
// ---------------------------------------------------------------------------
/// A payload given as an array item: `null` means none.
pub open spec fn payload_item(j: JsonModel) -> Option<JsonModel> {
    if j == JsonModel::Null {
        None
    } else {
        Some(j)
    }
}

/// An error code: the name of a standard code, either as a string or as the
/// only key of an object whose value is `null`; or an integer in `i32`.
pub open spec fn decode_code(j: JsonModel) -> Option<ErrorCode> {
    match j {
        JsonModel::Str(s) => match standard_code_named(s) {
            Some(c) => Some(ErrorCode::Standard(c)),
            None => None,
        },
        JsonModel::Obj(entries) => if entries.dom().finite() && entries.dom().len() == 1 {
            let k = entries.dom().choose();
            match standard_code_named(k) {
                Some(c) => if entries[k] == JsonModel::Null {
                    Some(ErrorCode::Standard(c))
                } else {
                    None
                },
                None => None,
            }
        } else {
            None
        },
        JsonModel::Num(JsonNumber::PosInt(u)) => if u <= i32::MAX {
            Some(ErrorCode::Custom(u as i32))
        } else {
            None
        },
        JsonModel::Num(JsonNumber::NegInt(i)) => if i32::MIN <= i <= i32::MAX {
            Some(ErrorCode::Custom(i as i32))
        } else {
            None
        },
        _ => None,
    }
}

/// An error body: an object with `code` and `message` (and `data`), or the
/// array `[code, message, data]`.
pub open spec fn decode_error_body(j: JsonModel) -> Option<ErrorBodyModel> {
    match j {
        JsonModel::Arr(items) => if items.len() == 3 {
            match (decode_code(items[0]), items[1]) {
                (Some(code), JsonModel::Str(message)) => Some(
                    ErrorBodyModel { code, message, data: payload_item(items[2]) },
                ),
                _ => None,
            }
        } else {
            None
        },
        _ => match (field(j, "code"@), text_field(j, "message"@)) {
            (Some(c), Some(message)) => match decode_code(c) {
                Some(code) => Some(
                    ErrorBodyModel { code, message, data: payload_field(j, "data"@) },
                ),
                None => None,
            },
            _ => None,
        },
    }
}

/// A request: an object with string `id` and `method` (and `params`), or the
/// array `[id, method, params]`.
pub open spec fn decode_request(j: JsonModel) -> Option<RequestModel> {
    match j {
        JsonModel::Arr(items) => if items.len() == 3 {
            match (items[0], items[1]) {
                (JsonModel::Str(id), JsonModel::Str(method)) => Some(
                    RequestModel { id, method, params: payload_item(items[2]) },
                ),
                _ => None,
            }
        } else {
            None
        },
        _ => match (text_field(j, "id"@), text_field(j, "method"@)) {
            (Some(id), Some(method)) => Some(
                RequestModel { id, method, params: payload_field(j, "params"@) },
            ),
            _ => None,
        },
    }
}

/// A successful answer: an object with string `id` and `result`, or the
/// array `[id, result]`.
pub open spec fn decode_result(j: JsonModel) -> Option<RequestResultModel> {
    match j {
        JsonModel::Arr(items) => if items.len() == 2 {
            match items[0] {
                JsonModel::Str(id) => Some(RequestResultModel { id, result: items[1] }),
                _ => None,
            }
        } else {
            None
        },
        _ => match (text_field(j, "id"@), field(j, "result"@)) {
            (Some(id), Some(result)) => Some(RequestResultModel { id, result }),
            _ => None,
        },
    }
}

/// A failed answer: an object with string `id` and an `error` body, or the
/// array `[id, error]`.
pub open spec fn decode_error(j: JsonModel) -> Option<RequestErrorModel> {
    match j {
        JsonModel::Arr(items) => if items.len() == 2 {
            match (items[0], decode_error_body(items[1])) {
                (JsonModel::Str(id), Some(error)) => Some(RequestErrorModel { id, error }),
                _ => None,
            }
        } else {
            None
        },
        _ => match (text_field(j, "id"@), field(j, "error"@)) {
            (Some(id), Some(e)) => match decode_error_body(e) {
                Some(error) => Some(RequestErrorModel { id, error }),
                None => None,
            },
            _ => None,
        },
    }
}

/// An event: an object with a string `event` (and `data`), or the array
/// `[event, data]`.
pub open spec fn decode_event(j: JsonModel) -> Option<EventModel> {
    match j {
        JsonModel::Arr(items) => if items.len() == 2 {
            match items[0] {
                JsonModel::Str(event) => Some(EventModel { event, data: payload_item(items[1]) }),
                _ => None,
            }
        } else {
            None
        },
        _ => match text_field(j, "event"@) {
            Some(event) => Some(EventModel { event, data: payload_field(j, "data"@) }),
            None => None,
        },
    }
}

/// The message a document is read as, trying the kinds in order; `None` for
/// a document that is no message.
pub open spec fn decode_message(j: JsonModel) -> Option<MessageModel> {
    if let Some(r) = decode_request(j) {
        Some(MessageModel::Request(r))
    } else if let Some(r) = decode_result(j) {
        Some(MessageModel::Response(ResponseModel::Success(r)))
    } else if let Some(e) = decode_error(j) {
        Some(MessageModel::Response(ResponseModel::Error(e)))
    } else if let Some(e) = decode_event(j) {
        Some(MessageModel::Event(e))
    } else {
        None
    }
}

/// The message a text whose document is `j` and whose layout is `l` is read
/// as: the kinds are tried in order, and a kind whose fields the text gives
/// twice is not read.
pub open spec fn decode_message_in(j: JsonModel, l: TextLayout) -> Option<MessageModel> {
    match (decode_request(j), request_once(l)) {
        (Some(r), true) => Some(MessageModel::Request(r)),
        _ => match (decode_result(j), result_once(l)) {
            (Some(r), true) => Some(MessageModel::Response(ResponseModel::Success(r))),
            _ => match (decode_error(j), error_once(l)) {
                (Some(e), true) => Some(MessageModel::Response(ResponseModel::Error(e))),
                _ => match (decode_event(j), event_once(l)) {
                    (Some(e), true) => Some(MessageModel::Event(e)),
                    _ => None,
                },
            },
        },
    }
}

// ---------------------------------------------------------------------------
// What survives a round trip
// ---------------------------------------------------------------------------
/// An optional payload as it reads back: `null` reads as absent.
pub open spec fn canon_payload(o: Option<JsonModel>) -> Option<JsonModel> {
    match o {
        Some(JsonModel::Null) => None,
        other => other,
    }
}

/// A message as it reads back after being written.
pub open spec fn canon_message(m: MessageModel) -> MessageModel {
    match m {
        MessageModel::Request(r) => MessageModel::Request(
            RequestModel { params: canon_payload(r.params), ..r },
        ),
        MessageModel::Response(ResponseModel::Success(r)) => MessageModel::Response(
            ResponseModel::Success(r),
        ),
        MessageModel::Response(ResponseModel::Error(e)) => MessageModel::Response(
            ResponseModel::Error(
                RequestErrorModel {
                    id: e.id,
                    error: ErrorBodyModel { data: canon_payload(e.error.data), ..e.error },
                },
            ),
        ),
        MessageModel::Event(e) => MessageModel::Event(
            EventModel { data: canon_payload(e.data), ..e },
        ),
    }
}

proof fn lemma_plain_keys()
    ensures
        plain_name("id"@),
        plain_name("method"@),
        plain_name("params"@),
        plain_name("result"@),
        plain_name("error"@),
        plain_name("event"@),
        plain_name("data"@),
        plain_name("code"@),
        plain_name("message"@),
{
    reveal_strlit("id");
    reveal_strlit("method");
    reveal_strlit("params");
    reveal_strlit("result");
    reveal_strlit("error");
    reveal_strlit("event");
    reveal_strlit("data");
    reveal_strlit("code");
    reveal_strlit("message");
}

proof fn lemma_keys_distinct()
    ensures
        "id"@ != "method"@,
        "id"@ != "params"@,
        "method"@ != "params"@,
        "id"@ != "result"@,
        "id"@ != "error"@,
        "event"@ != "data"@,
        "event"@ != "id"@,
        "data"@ != "id"@,
        "code"@ != "message"@,
        "code"@ != "data"@,
        "message"@ != "data"@,
        "method"@ != "result"@,
        "method"@ != "error"@,
        "result"@ != "error"@,
{
    reveal_strlit("id");
    reveal_strlit("method");
    reveal_strlit("params");
    reveal_strlit("result");
    reveal_strlit("error");
    reveal_strlit("event");
    reveal_strlit("data");
    reveal_strlit("code");
    reveal_strlit("message");
    assert("id"@.len() != "method"@.len());
    assert("id"@.len() != "params"@.len());
    assert("method"@[0] != "params"@[0]);
    assert("id"@.len() != "result"@.len());
    assert("id"@.len() != "error"@.len());
    assert("event"@.len() != "data"@.len());
    assert("event"@.len() != "id"@.len());
    assert("data"@.len() != "id"@.len());
    assert("code"@.len() != "message"@.len());
    assert("code"@[0] != "data"@[0]);
    assert("message"@.len() != "data"@.len());
    assert("method"@[0] != "result"@[0]);
    assert("method"@.len() != "error"@.len());
    assert("result"@.len() != "error"@.len());
}

proof fn lemma_standard_names(c: StandardErrorCode)
    ensures
        standard_code_named(c.spec_name()) == Some(c),
{
    reveal_strlit("NotFound");
    reveal_strlit("Unauthorized");
    reveal_strlit("RequestTimeout");
    reveal_strlit("InternalError");
    reveal_strlit("NotImplemented");
    assert("NotFound"@.len() != "Unauthorized"@.len());
    assert("NotFound"@.len() != "RequestTimeout"@.len());
    assert("NotFound"@.len() != "InternalError"@.len());
    assert("NotFound"@.len() != "NotImplemented"@.len());
    assert("Unauthorized"@.len() != "RequestTimeout"@.len());
    assert("Unauthorized"@[0] != "InternalError"@[0]);
    assert("Unauthorized"@.len() != "NotImplemented"@.len());
    assert("RequestTimeout"@.len() != "InternalError"@.len());
    assert("RequestTimeout"@[0] != "NotImplemented"@[0]);
    assert("InternalError"@.len() != "NotImplemented"@.len());
}

/// Reading back a written message gives the message itself, except that a
/// payload written as `null` reads back as absent.
pub proof fn lemma_message_json_round_trip(m: MessageModel)
    ensures
        decode_message(message_json(m)) == Some(canon_message(m)),
{
    lemma_keys_distinct();
    let j = message_json(m);
    match m {
        MessageModel::Request(r) => {
            assert(decode_request(j) == Some(RequestModel { params: canon_payload(r.params), ..r }));
        },
        MessageModel::Response(ResponseModel::Success(r)) => {
            assert(field(j, "method"@) is None);
            assert(decode_request(j) is None);
            assert(decode_result(j) == Some(r));
        },
        MessageModel::Response(ResponseModel::Error(e)) => {
            match e.error.code {
                ErrorCode::Standard(c) => lemma_standard_names(c),
                ErrorCode::Custom(_) => {},
            }
            let b = error_body_json(e.error);
            assert(decode_code(code_json(e.error.code)) == Some(e.error.code));
            assert(decode_error_body(b) == Some(
                ErrorBodyModel { data: canon_payload(e.error.data), ..e.error },
            ));
            assert(field(j, "method"@) is None);
            assert(field(j, "result"@) is None);
            assert(decode_request(j) is None);
            assert(decode_result(j) is None);
        },
        MessageModel::Event(e) => {
            assert(field(j, "id"@) is None);
            assert(decode_request(j) is None);
            assert(decode_result(j) is None);
            assert(decode_error(j) is None);
        },
    }
}


proof fn lemma_entries_object_2(a: (Seq<char>, JsonModel), b: (Seq<char>, JsonModel))
    ensures
        entries_object(seq![a, b]) == Map::<Seq<char>, JsonModel>::empty().insert(a.0, a.1).insert(
            b.0,
            b.1,
        ),
{
    reveal_with_fuel(entries_object, 3);
    assert(seq![a, b].drop_last() =~= seq![a]);
    assert(seq![a].drop_last() =~= Seq::<(Seq<char>, JsonModel)>::empty());
}

proof fn lemma_entries_object_3(
    a: (Seq<char>, JsonModel),
    b: (Seq<char>, JsonModel),
    c: (Seq<char>, JsonModel),
)
    ensures
        entries_object(seq![a, b, c]) == Map::<Seq<char>, JsonModel>::empty().insert(
            a.0,
            a.1,
        ).insert(b.0, b.1).insert(c.0, c.1),
{
    assert(seq![a, b, c].drop_last() =~= seq![a, b]);
    lemma_entries_object_2(a, b);
}

proof fn lemma_error_body_members(b: ErrorBodyModel)
    ensures
        keys_distinct(error_body_members(b)),
        written_model(Written::Object(error_body_members(b))) == error_body_json(b),
{
    lemma_keys_distinct();
    let ms = leaf_members_model(error_body_members(b));
    let a = ("code"@, code_json(b.code));
    let m = ("message"@, JsonModel::Str(b.message));
    let d = ("data"@, opt_json(b.data));
    assert(ms =~= seq![a, m, d]);
    lemma_entries_object_3(a, m, d);
}

/// The object a message is written as, member by member, holds the message's
/// document; its keys differ.
pub proof fn lemma_message_members(m: MessageModel)
    ensures
        keys_distinct(message_members(m)),
        written_object_model(message_members(m)) == message_json(m),
{
    lemma_keys_distinct();
    let ms = message_members(m);
    let ps = ms.map_values(|e: (Seq<char>, Written)| (e.0, written_model(e.1)));
    match m {
        MessageModel::Request(r) => {
            let a = ("id"@, JsonModel::Str(r.id));
            let b = ("method"@, JsonModel::Str(r.method));
            let c = ("params"@, opt_json(r.params));
            assert(ps =~= seq![a, b, c]);
            lemma_entries_object_3(a, b, c);
        },
        MessageModel::Response(ResponseModel::Success(r)) => {
            let a = ("id"@, JsonModel::Str(r.id));
            let b = ("result"@, r.result);
            assert(ps =~= seq![a, b]);
            lemma_entries_object_2(a, b);
        },
        MessageModel::Response(ResponseModel::Error(e)) => {
            lemma_error_body_members(e.error);
            let a = ("id"@, JsonModel::Str(e.id));
            let b = ("error"@, error_body_json(e.error));
            assert(ps =~= seq![a, b]);
            lemma_entries_object_2(a, b);
        },
        MessageModel::Event(e) => {
            let a = ("event"@, JsonModel::Str(e.event));
            let b = ("data"@, opt_json(e.data));
            assert(ps =~= seq![a, b]);
            lemma_entries_object_2(a, b);
        },
    }
}

proof fn lemma_payload_fits(o: Option<serde_json::Value>, outer: nat)
    requires
        outer <= 127,
        within_depth(opt_json(opt_model(o)), (127 - outer) as nat),
    ensures
        leaf_fits(payload_leaf(opt_model(o)), outer),
{
    if let Some(v) = o {
        assert(held_by_value(json_model(v)));
    }
}

/// A message whose document nests at most 127 levels is written as members
/// that read back as themselves.
pub proof fn lemma_message_members_fit(msg: Message)
    requires
        within_depth(message_json(msg@), 127),
    ensures
        members_fit(message_members(msg@)),
{
    reveal_with_fuel(within_depth, 3);
    lemma_message_members(msg@);
    lemma_keys_distinct();
    lemma_plain_keys();
    let ms = message_members(msg@);
    let j = message_json(msg@);
    match msg {
        Message::Request(r) => {
            assert(field(j, "params"@) == Some(opt_json(opt_model(r.params))));
            lemma_payload_fits(r.params, 1);
            assert forall|i: int| 0 <= i < ms.len() implies written_fits(#[trigger] ms[i].1) && plain_name(ms[i].0) by {
                assert(i == 0 || i == 1 || i == 2);
            }
        },
        Message::Response(Response::Success(ok)) => {
            assert(field(j, "result"@) == Some(json_model(ok.result)));
            assert(held_by_value(json_model(ok.result)));
            assert forall|i: int| 0 <= i < ms.len() implies written_fits(#[trigger] ms[i].1) && plain_name(ms[i].0) by {
                assert(i == 0 || i == 1);
            }
        },
        Message::Response(Response::Error(err)) => {
            let b = error_body_json(err.error@);
            assert(field(j, "error"@) == Some(b));
            assert(within_depth(b, 126));
            assert(field(b, "data"@) == Some(opt_json(opt_model(err.error.data))));
            lemma_payload_fits(err.error.data, 2);
            let es = error_body_members(err.error@);
            lemma_error_body_members(err.error@);
            assert forall|i: int| 0 <= i < es.len() implies leaf_fits(#[trigger] es[i].1, 2) && plain_name(es[i].0) by {
                assert(i == 0 || i == 1 || i == 2);
            }
            assert forall|i: int| 0 <= i < ms.len() implies written_fits(#[trigger] ms[i].1) && plain_name(ms[i].0) by {
                assert(i == 0 || i == 1);
            }
        },
        Message::Event(e) => {
            assert(field(j, "data"@) == Some(opt_json(opt_model(e.data))));
            lemma_payload_fits(e.data, 1);
            assert forall|i: int| 0 <= i < ms.len() implies written_fits(#[trigger] ms[i].1) && plain_name(ms[i].0) by {
                assert(i == 0 || i == 1);
            }
        },
    }
}

/// In a text that gives no message field twice, the kinds are read from
/// the document alone.
pub proof fn lemma_written_once_reads_document(j: JsonModel, l: TextLayout)
    requires
        written_once(l),
    ensures
        decode_message_in(j, l) == decode_message(j),
{
}

/// A message read from a document has no `null` payload, so writing it and
/// reading it back gives exactly that message.
pub proof fn lemma_decoded_messages_are_canonical(j: JsonModel)
    ensures
        decode_message(j) matches Some(m) ==> canon_message(m) == m && decode_message(
            message_json(m),
        ) == Some(m),
{
    if let Some(m) = decode_message(j) {
        lemma_message_json_round_trip(m);
    }
}

// ---------------------------------------------------------------------------
// Executable writing and reading
// ---------------------------------------------------------------------------
/// The text of a JSON string.
fn string_text(s: &str) -> (r: Vec<u8>)
    ensures
        r@ == json_text(JsonModel::Str(s@)),
        read_alone(r@),
        r@[0] != 123u8,
{
    let r = value_text(&json_str(s));
    assert(within_depth(JsonModel::Str(s@), 127));
    r
}

/// The text of an optional payload: `null` when absent.
fn payload_text(o: &Option<serde_json::Value>) -> (r: Vec<u8>)
    ensures
        r@ == json_text(leaf_model(payload_leaf(opt_model(*o)))),
        r@.len() > 0,
        !is_ws(r@[0]),
        within_depth(opt_json(opt_model(*o)), 127) ==> read_alone(r@),
{
    match o {
        Some(v) => value_text(v),
        None => {
            let r = value_text(&json_null());
            assert(within_depth(JsonModel::Null, 127));
            r
        },
    }
}

/// The text of an error code.
fn code_text(c: &ErrorCode) -> (r: Vec<u8>)
    ensures
        r@ == json_text(leaf_model(code_leaf(*c))),
        read_alone(r@),
        r@[0] != 123u8,
{
    match c {
        ErrorCode::Standard(s) => string_text(s.name()),
        ErrorCode::Custom(n) => {
            let r = value_text(&json_i64(*n as i64));
            assert(within_depth(JsonModel::Num(int_number(*n as i64 as int)), 127));
            r
        },
    }
}

/// A payload nesting at most `d` levels is read alone when it nests less
/// than the parser's limit.
proof fn lemma_payload_depth(o: Option<JsonModel>, d: nat)
    requires
        d <= 127,
        within_depth(opt_json(o), d),
    ensures
        within_depth(opt_json(o), 127),
{
    lemma_within_depth_mono(opt_json(o), d, 127);
}

impl Message {
    /// The bytes this message is written as: a JSON object whose members
    /// come in field order. Unless the message nests more than the parser
    /// reads, the text gives no field twice.
    pub fn to_text(&self) -> (r: Vec<u8>)
        ensures
            r@ == message_text(self@),
            within_depth(message_json(self@), 127) ==> written_once(text_layout(r@)),
    {
        proof {
            lemma_plain_keys();
            lemma_field_words();
            lemma_fields_written_once();
            reveal_with_fuel(within_depth, 3);
        }
        let mut out = open_object();
        let ghost m0 = Seq::<(Seq<char>, Seq<u8>)>::empty();
        let ghost done = message_members(self@).map_values(
            |e: (Seq<char>, Written)| (e.0, written_text(e.1)),
        );
        let ghost j = message_json(self@);
        match self {
            Message::Request(req) => {
                let id = string_text(req.id.as_str());
                let method = string_text(req.method.as_str());
                let params = payload_text(&req.params);
                let ghost a = ("id"@, id@);
                let ghost b = ("method"@, method@);
                let ghost c = ("params"@, params@);
                let ghost m1 = m0.push(a);
                let ghost m2 = m1.push(b);
                proof {
                    assert(m2.push(c) =~= done);
                    assert(m2.push(c) =~= seq![a, b, c]);
                }
                push_member(&mut out, Ghost(m0), "id", id);
                push_member(&mut out, Ghost(m1), "method", method);
                push_member(&mut out, Ghost(m2), "params", params);
                close_object(&mut out, Ghost(done));
                proof {
                    if within_depth(j, 127) {
                        assert(field(j, "params"@) == Some(opt_json(opt_model(req.params))));
                        lemma_payload_depth(opt_model(req.params), 126);
                        lemma_object_text_three(a, b, c);
                        lemma_layout_three(out@, a, b, c);
                    }
                }
            },
            Message::Response(Response::Success(ok)) => {
                let id = string_text(ok.id.as_str());
                let result = value_text(&ok.result);
                let ghost a = ("id"@, id@);
                let ghost b = ("result"@, result@);
                let ghost m1 = m0.push(a);
                proof {
                    assert(m1.push(b) =~= done);
                    assert(m1.push(b) =~= seq![a, b]);
                }
                push_member(&mut out, Ghost(m0), "id", id);
                push_member(&mut out, Ghost(m1), "result", result);
                close_object(&mut out, Ghost(done));
                proof {
                    if within_depth(j, 127) {
                        assert(field(j, "result"@) == Some(json_model(ok.result)));
                        lemma_within_depth_mono(json_model(ok.result), 126, 127);
                        lemma_object_text_two(a, b);
                        lemma_layout_two(out@, a, b);
                    }
                }
            },
            Message::Response(Response::Error(err)) => {
                let id = string_text(err.id.as_str());
                let code = code_text(&err.error.code);
                let message = string_text(err.error.message.as_str());
                let data = payload_text(&err.error.data);
                let ghost c = ("code"@, code@);
                let ghost m = ("message"@, message@);
                let ghost d = ("data"@, data@);
                let ghost n1 = m0.push(c);
                let ghost n2 = n1.push(m);
                let ghost inner = n2.push(d);
                let mut body = open_object();
                push_member(&mut body, Ghost(m0), "code", code);
                push_member(&mut body, Ghost(n1), "message", message);
                push_member(&mut body, Ghost(n2), "data", data);
                close_object(&mut body, Ghost(inner));
                let ghost a = ("id"@, id@);
                let ghost e = ("error"@, body@);
                let ghost m1 = m0.push(a);
                proof {
                    assert(inner =~= seq![c, m, d]);
                    assert(inner =~= leaf_members_text(error_body_members(err.error@)));
                    assert(m1.push(e) =~= done);
                    assert(m1.push(e) =~= seq![a, e]);
                }
                push_member(&mut out, Ghost(m0), "id", id);
                push_member(&mut out, Ghost(m1), "error", body);
                close_object(&mut out, Ghost(done));
                proof {
                    if within_depth(j, 127) {
                        let bj = error_body_json(err.error@);
                        assert(field(j, "error"@) == Some(bj));
                        assert(within_depth(bj, 126));
                        assert(field(bj, "data"@) == Some(opt_json(opt_model(err.error.data))));
                        lemma_payload_depth(opt_model(err.error.data), 125);
                        lemma_object_text_three(c, m, d);
                        lemma_object_text_two(a, e);
                        lemma_layout_error(out@, id@, c, m, d);
                    }
                }
            },
            Message::Event(evt) => {
                let event = string_text(evt.event.as_str());
                let data = payload_text(&evt.data);
                let ghost a = ("event"@, event@);
                let ghost b = ("data"@, data@);
                let ghost m1 = m0.push(a);
                proof {
                    assert(m1.push(b) =~= done);
                    assert(m1.push(b) =~= seq![a, b]);
                }
                push_member(&mut out, Ghost(m0), "event", event);
                push_member(&mut out, Ghost(m1), "data", data);
                close_object(&mut out, Ghost(done));
                proof {
                    if within_depth(j, 127) {
                        assert(field(j, "data"@) == Some(opt_json(opt_model(evt.data))));
                        lemma_payload_depth(opt_model(evt.data), 126);
                        lemma_object_text_two(a, b);
                        lemma_layout_two(out@, a, b);
                    }
                }
            },
        }
        out
    }

    /// The message a JSON document read from a text of layout `shape` is read
    /// as; `None` for a document that is no message.
    pub fn from_json(v: &serde_json::Value, shape: &TextShape) -> (r: Option<Message>)
        ensures
            match decode_message_in(json_model(*v), shape@) {
                Some(mm) => r matches Some(x) && x@ == mm,
                None => r is None,
            },
    {
        if let Some(req) = request_from_json(v) {
            if shape.request_once() {
                return Some(Message::Request(req));
            }
        }
        if let Some(ok) = result_from_json(v) {
            if shape.result_once() {
                return Some(Message::Response(Response::Success(ok)));
            }
        }
        if let Some(err) = error_from_json(v) {
            if shape.error_once() {
                return Some(Message::Response(Response::Error(err)));
            }
        }
        if let Some(evt) = event_from_json(v) {
            if shape.event_once() {
                return Some(Message::Event(evt));
            }
        }
        None
    }
}

fn text_of(v: &serde_json::Value, k: &str) -> (r: Option<String>)
    ensures
        match text_field(json_model(*v), k@) {
            Some(s) => r matches Some(x) && x@ == s,
            None => r is None,
        },
{
    match json_get(v, k) {
        Some(x) => string_of(x),
        None => None,
    }
}

fn string_of(v: &serde_json::Value) -> (r: Option<String>)
    ensures
        match json_model(*v) {
            JsonModel::Str(s) => r matches Some(x) && x@ == s,
            _ => r is None,
        },
{
    match json_as_str(v) {
        Some(s) => Some(String::from_str(s)),
        None => None,
    }
}

fn payload_of(v: &serde_json::Value, k: &str) -> (r: Option<serde_json::Value>)
    ensures
        opt_model(r) == payload_field(json_model(*v), k@),
{
    match json_get(v, k) {
        Some(x) => item_payload(x),
        None => None,
    }
}

fn item_payload(v: &serde_json::Value) -> (r: Option<serde_json::Value>)
    ensures
        opt_model(r) == payload_item(json_model(*v)),
{
    if json_is_null(v) {
        None
    } else {
        Some(v.clone())
    }
}

/// The models of array items.
spec fn item_models(a: Seq<serde_json::Value>) -> Seq<JsonModel> {
    a.map_values(|x: serde_json::Value| json_model(x))
}

proof fn lemma_singleton_choose(s: Set<Seq<char>>, k: Seq<char>)
    requires
        s.finite(),
        s.len() == 1,
        s.contains(k),
    ensures
        s.choose() == k,
{
    let c = s.choose();
    assert(s.contains(c));
    if c != k {
        assert(s.remove(k).contains(c));
        vstd::set_lib::lemma_set_empty_equivalency_len(s.remove(k));
    }
}

fn code_of(v: &serde_json::Value) -> (r: Option<ErrorCode>)
    ensures
        r == decode_code(json_model(*v)),
{
    match json_as_str(v) {
        Some(s) => match StandardErrorCode::from_name(s) {
            Some(c) => Some(ErrorCode::Standard(c)),
            None => None,
        },
        None => match json_as_object(v) {
            Some(m) => if json_map_len(m) == 1 {
                named_code_of(v)
            } else {
                None
            },
            None => match json_as_i64(v) {
                Some(i) => if -2147483648i64 <= i && i <= 2147483647i64 {
                    Some(ErrorCode::Custom(i as i32))
                } else {
                    None
                },
                None => None,
            },
        },
    }
}

/// The code named by the only key of a one-entry object whose value is
/// `null`.
fn named_code_of(v: &serde_json::Value) -> (r: Option<ErrorCode>)
    requires
        json_model(*v) matches JsonModel::Obj(entries) && entries.dom().finite()
            && entries.dom().len() == 1,
    ensures
        r == decode_code(json_model(*v)),
{
    let names = [
        StandardErrorCode::NotFound,
        StandardErrorCode::Unauthorized,
        StandardErrorCode::RequestTimeout,
        StandardErrorCode::InternalError,
        StandardErrorCode::NotImplemented,
    ];
    let ghost entries = json_model(*v)->Obj_0;
    let mut i: usize = 0;
    while i < 5
        invariant
            i <= 5,
            names@ == seq![
                StandardErrorCode::NotFound,
                StandardErrorCode::Unauthorized,
                StandardErrorCode::RequestTimeout,
                StandardErrorCode::InternalError,
                StandardErrorCode::NotImplemented,
            ],
            json_model(*v) == JsonModel::Obj(entries),
            entries.dom().finite(),
            entries.dom().len() == 1,
            forall|j: int| 0 <= j < i ==> !entries.contains_key(#[trigger] names@[j].spec_name()),
        decreases 5 - i,
    {
        let c = names[i];
        match json_get(v, c.name()) {
            Some(x) => {
                proof {
                    lemma_singleton_choose(entries.dom(), c.spec_name());
                    lemma_standard_names(c);
                }
                if json_is_null(x) {
                    return Some(ErrorCode::Standard(c));
                } else {
                    return None;
                }
            },
            None => {},
        }
        i = i + 1;
    }
    proof {
        let k = entries.dom().choose();
        assert(entries.contains_key(k));
        assert(!entries.contains_key(names@[0].spec_name()));
        assert(!entries.contains_key(names@[1].spec_name()));
        assert(!entries.contains_key(names@[2].spec_name()));
        assert(!entries.contains_key(names@[3].spec_name()));
        assert(!entries.contains_key(names@[4].spec_name()));
        assert(standard_code_named(k) is None);
    }
    None
}

fn error_body_from_json(v: &serde_json::Value) -> (r: Option<ErrorBody>)
    ensures
        match decode_error_body(json_model(*v)) {
            Some(b) => r matches Some(x) && x@ == b,
            None => r is None,
        },
{
    if let Some(a) = json_as_array(v) {
        proof {
            assert(item_models(a@) == json_model(*v)->Arr_0);
        }
        if a.len() != 3 {
            return None;
        }
        return match (code_of(&a[0]), string_of(&a[1])) {
            (Some(code), Some(message)) => Some(
                ErrorBody { code, message, data: item_payload(&a[2]) },
            ),
            _ => None,
        };
    }
    let code = match json_get(v, "code") {
        Some(c) => code_of(c),
        None => None,
    };
    match (code, text_of(v, "message")) {
        (Some(code), Some(message)) => Some(ErrorBody { code, message, data: payload_of(v, "data") }),
        _ => None,
    }
}

fn request_from_json(v: &serde_json::Value) -> (r: Option<Request>)
    ensures
        match decode_request(json_model(*v)) {
            Some(m) => r matches Some(x) && x@ == m,
            None => r is None,
        },
{
    if let Some(a) = json_as_array(v) {
        proof {
            assert(item_models(a@) == json_model(*v)->Arr_0);
        }
        if a.len() != 3 {
            return None;
        }
        return match (string_of(&a[0]), string_of(&a[1])) {
            (Some(id), Some(method)) => Some(Request { id, method, params: item_payload(&a[2]) }),
            _ => None,
        };
    }
    match (text_of(v, "id"), text_of(v, "method")) {
        (Some(id), Some(method)) => Some(Request { id, method, params: payload_of(v, "params") }),
        _ => None,
    }
}

fn result_from_json(v: &serde_json::Value) -> (r: Option<RequestResult>)
    ensures
        match decode_result(json_model(*v)) {
            Some(m) => r matches Some(x) && x@ == m,
            None => r is None,
        },
{
    if let Some(a) = json_as_array(v) {
        proof {
            assert(item_models(a@) == json_model(*v)->Arr_0);
        }
        if a.len() != 2 {
            return None;
        }
        return match string_of(&a[0]) {
            Some(id) => Some(RequestResult { id, result: a[1].clone() }),
            None => None,
        };
    }
    match (text_of(v, "id"), json_get(v, "result")) {
        (Some(id), Some(result)) => Some(RequestResult { id, result: result.clone() }),
        _ => None,
    }
}

fn error_from_json(v: &serde_json::Value) -> (r: Option<RequestError>)
    ensures
        match decode_error(json_model(*v)) {
            Some(m) => r matches Some(x) && x@ == m,
            None => r is None,
        },
{
    if let Some(a) = json_as_array(v) {
        proof {
            assert(item_models(a@) == json_model(*v)->Arr_0);
        }
        if a.len() != 2 {
            return None;
        }
        return match (string_of(&a[0]), error_body_from_json(&a[1])) {
            (Some(id), Some(error)) => Some(RequestError { id, error }),
            _ => None,
        };
    }
    match (text_of(v, "id"), json_get(v, "error")) {
        (Some(id), Some(e)) => match error_body_from_json(e) {
            Some(error) => Some(RequestError { id, error }),
            None => None,
        },
        _ => None,
    }
}

fn event_from_json(v: &serde_json::Value) -> (r: Option<Event>)
    ensures
        match decode_event(json_model(*v)) {
            Some(m) => r matches Some(x) && x@ == m,
            None => r is None,
        },
{
    if let Some(a) = json_as_array(v) {
        proof {
            assert(item_models(a@) == json_model(*v)->Arr_0);
        }
        if a.len() != 2 {
            return None;
        }
        return match string_of(&a[0]) {
            Some(event) => Some(Event { event, data: item_payload(&a[1]) }),
            None => None,
        };
    }
    match text_of(v, "event") {
        Some(event) => Some(Event { event, data: payload_of(v, "data") }),
        None => None,
    }
}

} // verus!
