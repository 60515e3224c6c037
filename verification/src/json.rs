//! JSON documents as the protocol sees them.
//!
//! Payloads travel as `serde_json::Value`. Verus cannot look inside such a
//! value, so every document is described by its model, a `JsonModel`, and the
//! few operations the protocol needs (build, look up, parse, print) go through
//! small trusted wrappers around `serde_json` whose contracts speak of models.
use vstd::prelude::*;
use vstd::string::*;

verus! {

#[verifier::external_type_specification]
#[verifier::external_body]
pub struct ExJsonValue(serde_json::Value);

#[verifier::external_type_specification]
#[verifier::external_body]
#[verifier::reject_recursive_types(K)]
#[verifier::reject_recursive_types(V)]
pub struct ExJsonMap<K, V>(serde_json::Map<K, V>);

#[verifier::external_type_specification]
#[verifier::external_body]
pub struct ExJsonError(serde_json::Error);

/// A JSON number as `serde_json` stores it without `arbitrary_precision`:
/// a non-negative integer, a negative integer, or a finite float, the float
/// given by its IEEE-754 bit pattern.
pub enum JsonNumber {
    PosInt(u64),
    NegInt(i64),
    Float(u64),
}

/// The mathematical content of a JSON document. Objects are maps: `serde_json`
/// (without `preserve_order`) keeps each key once, in a sorted map.
pub enum JsonModel {
    Null,
    Bool(bool),
    Num(JsonNumber),
    Str(Seq<char>),
    Arr(Seq<JsonModel>),
    Obj(Map<Seq<char>, JsonModel>),
}

/// What a `serde_json::Value` holds.
pub uninterp spec fn json_model(v: serde_json::Value) -> JsonModel;

/// What a `serde_json::Map<String, Value>` holds, each entry by its model.
pub uninterp spec fn json_entries(m: serde_json::Map<String, serde_json::Value>) -> Map<
    Seq<char>,
    JsonModel,
>;

/// The compact JSON text that `serde_json::to_vec` writes for a document.
pub uninterp spec fn json_text(m: JsonModel) -> Seq<u8>;

/// The document that `serde_json::from_slice::<Value>` reads from bytes, or
/// `None` where it reports an error.
pub uninterp spec fn json_parse(bytes: Seq<u8>) -> Option<JsonModel>;

/// The number a non-negative or negative `i64` becomes in `serde_json`.
pub open spec fn int_number(i: int) -> JsonNumber {
    if i < 0 {
        JsonNumber::NegInt(i as i64)
    } else {
        JsonNumber::PosInt(i as u64)
    }
}

/// `m` nests arrays and objects at most `depth` levels deep.
pub open spec fn within_depth(m: JsonModel, depth: nat) -> bool
    decreases depth,
{
    match m {
        JsonModel::Arr(items) => depth > 0 && forall|i: int|
            0 <= i < items.len() ==> within_depth(#[trigger] items[i], (depth - 1) as nat),
        JsonModel::Obj(entries) => depth > 0 && forall|k: Seq<char>| #[trigger]
            entries.contains_key(k) ==> within_depth(entries[k], (depth - 1) as nat),
        _ => true,
    }
}

/// The model of an optional payload.
pub open spec fn opt_model(v: Option<serde_json::Value>) -> Option<JsonModel> {
    match v {
        Some(x) => Some(json_model(x)),
        None => None,
    }
}

/// `Value::Null`.
#[verifier::external_body]
pub(crate) fn json_null() -> (r: serde_json::Value)
    ensures
        json_model(r) == JsonModel::Null,
{
    serde_json::Value::Null
}

/// `Value::from(&str)`: a JSON string.
#[verifier::external_body]
pub(crate) fn json_str(s: &str) -> (r: serde_json::Value)
    ensures
        json_model(r) == JsonModel::Str(s@),
{
    serde_json::Value::from(s)
}

/// `Value::from(i64)`: `serde_json` keeps a negative integer as `NegInt`
/// and any other as `PosInt`.
#[verifier::external_body]
pub(crate) fn json_i64(i: i64) -> (r: serde_json::Value)
    ensures
        json_model(r) == JsonModel::Num(int_number(i as int)),
{
    serde_json::Value::from(i)
}

/// `Value::from(Vec<Value>)`: a JSON array of the given items, in order.
#[verifier::external_body]
pub(crate) fn json_array(items: Vec<serde_json::Value>) -> (r: serde_json::Value)
    ensures
        json_model(r) == JsonModel::Arr(items@.map_values(|x: serde_json::Value| json_model(x))),
{
    serde_json::Value::from(items)
}

/// `Map::new()`: an object with no entries.
#[verifier::external_body]
pub(crate) fn json_map_new() -> (r: serde_json::Map<String, serde_json::Value>)
    ensures
        json_entries(r).dom() == Set::<Seq<char>>::empty(),
{
    serde_json::Map::new()
}

/// `Map::insert`: sets one entry, replacing the entry of that key if any.
#[verifier::external_body]
pub(crate) fn json_map_insert(
    m: serde_json::Map<String, serde_json::Value>,
    k: String,
    v: serde_json::Value,
) -> (r: serde_json::Map<String, serde_json::Value>)
    ensures
        json_entries(r) == json_entries(m).insert(k@, json_model(v)),
{
    let mut m = m;
    m.insert(k, v);
    m
}

/// `Value::from(Map)`: the JSON object with those entries.
#[verifier::external_body]
pub(crate) fn json_object(m: serde_json::Map<String, serde_json::Value>) -> (r: serde_json::Value)
    ensures
        json_model(r) == JsonModel::Obj(json_entries(m)),
{
    serde_json::Value::from(m)
}

/// `Value::get(&str)`: the entry of an object under `key`; `None` for a
/// missing key or a value that is not an object.
#[verifier::external_body]
pub(crate) fn json_get<'a>(v: &'a serde_json::Value, key: &str) -> (r: Option<&'a serde_json::Value>)
    ensures
        match json_model(*v) {
            JsonModel::Obj(entries) => {
                &&& r is Some <==> entries.contains_key(key@)
                &&& r matches Some(x) ==> json_model(*x) == entries[key@]
            },
            _ => r is None,
        },
{
    v.get(key)
}

/// `Value::as_str`: the text of a JSON string, `None` for anything else.
#[verifier::external_body]
pub(crate) fn json_as_str(v: &serde_json::Value) -> (r: Option<&str>)
    ensures
        match json_model(*v) {
            JsonModel::Str(s) => r matches Some(x) && x@ == s,
            _ => r is None,
        },
{
    v.as_str()
}

/// `Value::as_i64`: an integer that fits in `i64`, `None` for anything else.
#[verifier::external_body]
pub(crate) fn json_as_i64(v: &serde_json::Value) -> (r: Option<i64>)
    ensures
        match json_model(*v) {
            JsonModel::Num(JsonNumber::PosInt(u)) => if u <= i64::MAX {
                r == Some(u as i64)
            } else {
                r is None
            },
            JsonModel::Num(JsonNumber::NegInt(i)) => r == Some(i),
            _ => r is None,
        },
{
    v.as_i64()
}

/// `Value::as_array`: the items of a JSON array, `None` for anything else.
#[verifier::external_body]
pub(crate) fn json_as_array(v: &serde_json::Value) -> (r: Option<&Vec<serde_json::Value>>)
    ensures
        match json_model(*v) {
            JsonModel::Arr(items) => r matches Some(a) && a@.map_values(
                |x: serde_json::Value| json_model(x),
            ) == items,
            _ => r is None,
        },
{
    v.as_array()
}

/// `Value::as_object`: the entries of a JSON object (a `serde_json` map holds
/// finitely many, each key once), `None` for anything else.
#[verifier::external_body]
pub(crate) fn json_as_object(v: &serde_json::Value) -> (r: Option<
    &serde_json::Map<String, serde_json::Value>,
>)
    ensures
        match json_model(*v) {
            JsonModel::Obj(entries) => entries.dom().finite() && (r matches Some(m) && json_entries(
                *m,
            ) == entries),
            _ => r is None,
        },
{
    v.as_object()
}

/// `Map::len`: the number of entries.
#[verifier::external_body]
pub(crate) fn json_map_len(m: &serde_json::Map<String, serde_json::Value>) -> (r: usize)
    ensures
        r == json_entries(*m).dom().len(),
{
    m.len()
}

/// `Value::is_null`.
#[verifier::external_body]
pub(crate) fn json_is_null(v: &serde_json::Value) -> (r: bool)
    ensures
        r == (json_model(*v) == JsonModel::Null),
{
    v.is_null()
}

/// `Value::clone`: the derived clone copies the whole document.
pub assume_specification[ <serde_json::Value as Clone>::clone ](v: &serde_json::Value) -> (r:
    serde_json::Value)
    ensures
        json_model(r) == json_model(*v),
;

/// `serde_json::to_vec` on a `Value`. Printing a `Value` cannot fail: its map
/// keys are strings and its numbers finite. The text is compact: it starts
/// with a token, not with whitespace, and with `{` exactly when the document
/// is an object. Read back as the first value of a longer text that goes on
/// with `,` or `}`, it is read whole and no further, as long as it nests at
/// most 127 levels (the parser's limit).
#[verifier::external_body]
pub(crate) fn json_to_vec(v: &serde_json::Value) -> (r: Result<Vec<u8>, serde_json::Error>)
    ensures
        r is Ok,
        r matches Ok(bytes) ==> bytes@ == json_text(json_model(*v)),
        r matches Ok(bytes) ==> bytes@.len() > 0 && !is_ws(bytes@[0]) && (bytes@[0] == 123u8
            <==> json_model(*v) is Obj),
        r matches Ok(bytes) ==> (within_depth(json_model(*v), 127) ==> spans_alone(bytes@)),
{
    serde_json::to_vec(v)
}

/// `serde_json::from_slice::<Value>`: reads one JSON document from bytes.
///
/// Besides naming what is read, the contract states how `serde_json` reads
/// an object written member by member (`{`, then each key as its ASCII
/// letters between quotes, `:` and the printed value, members separated by
/// `,`, then `}`): when the keys differ, and each value is a string, `null`,
/// an `i64`, a document some `Value` holds, or an object of such (keys made
/// of letters and differing again), the text reads as the object of those
/// entries. The parser stops at 128
/// levels of nesting, so a document value nests at most 126 levels at the top
/// of the object and 125 inside a member object; `float_roundtrip` is
/// enabled, so floats read back exactly.
#[verifier::external_body]
pub(crate) fn json_from_slice(bytes: &[u8]) -> (r: Result<serde_json::Value, serde_json::Error>)
    ensures
        r is Ok <==> json_parse(bytes@) is Some,
        r matches Ok(v) ==> json_parse(bytes@) == Some(json_model(v)),
        forall|ws: Seq<(Seq<char>, Written)>|
            #![trigger written_object_text(ws)]
            written_object_text(ws) == bytes@ && members_fit(ws) ==> r is Ok && (r matches Ok(v)
                ==> json_model(v) == written_object_model(ws)),
{
    serde_json::from_slice(bytes)
}

/// How many bytes the first JSON value of `bytes` takes, whitespace before it
/// included, as `serde_json`'s stream reader finds it; `None` where no value
/// can be read there.
pub uninterp spec fn json_value_span(bytes: Seq<u8>) -> Option<int>;

/// `serde_json::Deserializer::from_slice(..).into_iter()`: reads the first
/// JSON value of `bytes` (skipping it, `IgnoredAny`) and reports with
/// `byte_offset` where it ended. A value read takes at least one byte and
/// lies within the input.
#[verifier::external_body]
pub(crate) fn json_value_len(bytes: &[u8]) -> (r: Option<usize>)
    ensures
        match r {
            Some(n) => json_value_span(bytes@) == Some(n as int) && 0 < n <= bytes@.len(),
            None => json_value_span(bytes@) is None,
        },
{
    let mut values = serde_json::Deserializer::from_slice(bytes).into_iter::<serde::de::IgnoredAny>();
    match values.next() {
        Some(Ok(_)) => Some(values.byte_offset()),
        _ => None,
    }
}

// ---------------------------------------------------------------------------
// Objects written member by member
// ---------------------------------------------------------------------------
/// An object built from entries in order, a later entry replacing an earlier
/// one of the same key.
pub open spec fn entries_object(s: Seq<(Seq<char>, JsonModel)>) -> Map<Seq<char>, JsonModel>
    decreases s.len(),
{
    if s.len() == 0 {
        Map::empty()
    } else {
        entries_object(s.drop_last()).insert(s.last().0, s.last().1)
    }
}

/// No key occurs twice among the members.
pub open spec fn keys_distinct<T>(s: Seq<(Seq<char>, T)>) -> bool {
    forall|i: int, j: int| 0 <= i < j < s.len() ==> #[trigger] s[i].0 != #[trigger] s[j].0
}

/// One member `"key":value`, the value given by its text.
pub open spec fn member_text(member: (Seq<char>, Seq<u8>)) -> Seq<u8> {
    seq![34u8] + ascii(member.0) + seq![34u8, 58u8] + member.1
}

/// The bytes of ASCII characters.
pub open spec fn ascii(k: Seq<char>) -> Seq<u8> {
    Seq::new(k.len(), |i: int| k[i] as u8)
}

/// A member name made of ASCII letters only: written between quotes as it
/// is, it needs no escaping.
pub open spec fn plain_name(k: Seq<char>) -> bool {
    forall|i: int| 0 <= i < k.len() ==> ('a' <= #[trigger] k[i] <= 'z' || 'A' <= k[i] <= 'Z')
}

/// Whitespace between JSON tokens.
pub open spec fn is_ws(c: u8) -> bool {
    c == 32u8 || c == 9u8 || c == 10u8 || c == 13u8
}

/// Text that the first value read from `text + rest` spans exactly, when
/// `rest` goes on with `,` or `}`.
pub open spec fn spans_alone(text: Seq<u8>) -> bool {
    forall|rest: Seq<u8>|
        #![trigger json_value_span(text + rest)]
        rest.len() > 0 && (rest[0] == 44u8 || rest[0] == 125u8) ==> json_value_span(text + rest)
            == Some(text.len() as int)
}

/// The members, separated by commas.
pub open spec fn members_text(s: Seq<(Seq<char>, Seq<u8>)>) -> Seq<u8>
    decreases s.len(),
{
    if s.len() == 0 {
        Seq::empty()
    } else if s.len() == 1 {
        member_text(s[0])
    } else {
        members_text(s.drop_last()) + seq![44u8] + member_text(s.last())
    }
}

/// `{"k1":v1,"k2":v2,...}` in the order given, compact as `serde_json`
/// writes it.
pub open spec fn object_text(s: Seq<(Seq<char>, Seq<u8>)>) -> Seq<u8> {
    seq![123u8] + members_text(s) + seq![125u8]
}

/// A plain value written into an object.
pub enum Leaf {
    Null,
    Text(Seq<char>),
    Int(i64),
    /// A document that some `serde_json::Value` holds.
    Doc(JsonModel),
}

/// A member value: a plain value, or an object of plain values.
pub enum Written {
    Plain(Leaf),
    Object(Seq<(Seq<char>, Leaf)>),
}

pub open spec fn leaf_model(l: Leaf) -> JsonModel {
    match l {
        Leaf::Null => JsonModel::Null,
        Leaf::Text(s) => JsonModel::Str(s),
        Leaf::Int(i) => JsonModel::Num(int_number(i as int)),
        Leaf::Doc(j) => j,
    }
}

/// Some `serde_json::Value` holds the document `j`.
pub open spec fn held_by_value(j: JsonModel) -> bool {
    exists|v: serde_json::Value| json_model(v) == j
}

/// A plain value that reads back as itself from inside an object nested
/// `outer` levels deep.
pub open spec fn leaf_fits(l: Leaf, outer: nat) -> bool {
    match l {
        Leaf::Doc(j) => held_by_value(j) && within_depth(j, (127 - outer) as nat),
        _ => true,
    }
}

pub open spec fn leaf_members_text(s: Seq<(Seq<char>, Leaf)>) -> Seq<(Seq<char>, Seq<u8>)> {
    s.map_values(|e: (Seq<char>, Leaf)| (e.0, json_text(leaf_model(e.1))))
}

pub open spec fn leaf_members_model(s: Seq<(Seq<char>, Leaf)>) -> Seq<(Seq<char>, JsonModel)> {
    s.map_values(|e: (Seq<char>, Leaf)| (e.0, leaf_model(e.1)))
}

pub open spec fn written_text(w: Written) -> Seq<u8> {
    match w {
        Written::Plain(l) => json_text(leaf_model(l)),
        Written::Object(s) => object_text(leaf_members_text(s)),
    }
}

pub open spec fn written_model(w: Written) -> JsonModel {
    match w {
        Written::Plain(l) => leaf_model(l),
        Written::Object(s) => JsonModel::Obj(entries_object(leaf_members_model(s))),
    }
}

pub open spec fn written_fits(w: Written) -> bool {
    match w {
        Written::Plain(l) => leaf_fits(l, 1),
        Written::Object(s) => keys_distinct(s) && forall|i: int|
            0 <= i < s.len() ==> leaf_fits(#[trigger] s[i].1, 2) && plain_name(s[i].0),
    }
}

/// The members of a top-level object: distinct keys, each value fitting.
pub open spec fn members_fit(s: Seq<(Seq<char>, Written)>) -> bool {
    keys_distinct(s) && forall|i: int|
        0 <= i < s.len() ==> written_fits(#[trigger] s[i].1) && plain_name(s[i].0)
}

/// The text of an object written member by member.
pub open spec fn written_object_text(s: Seq<(Seq<char>, Written)>) -> Seq<u8> {
    object_text(s.map_values(|e: (Seq<char>, Written)| (e.0, written_text(e.1))))
}

/// The document an object written member by member holds.
pub open spec fn written_object_model(s: Seq<(Seq<char>, Written)>) -> JsonModel {
    JsonModel::Obj(
        entries_object(s.map_values(|e: (Seq<char>, Written)| (e.0, written_model(e.1)))),
    )
}

/// The text of a document.
pub(crate) fn value_text(v: &serde_json::Value) -> (r: Vec<u8>)
    ensures
        r@ == json_text(json_model(*v)),
        r@.len() > 0 && !is_ws(r@[0]) && (r@[0] == 123u8 <==> json_model(*v) is Obj),
        within_depth(json_model(*v), 127) ==> spans_alone(r@),
{
    match json_to_vec(v) {
        Ok(bytes) => bytes,
        Err(_) => Vec::new(),
    }
}

proof fn lemma_members_text_push(s: Seq<(Seq<char>, Seq<u8>)>, m: (Seq<char>, Seq<u8>))
    ensures
        members_text(s.push(m)) == if s.len() == 0 {
            member_text(m)
        } else {
            members_text(s) + seq![44u8] + member_text(m)
        },
{
    assert(s.push(m).drop_last() =~= s);
    if s.len() == 0 {
        assert(s.push(m)[0] == m);
    }
}

/// Appends member `"key":value` to an object being written whose members so
/// far are `done`.
pub(crate) fn push_member(
    out: &mut Vec<u8>,
    Ghost(done): Ghost<Seq<(Seq<char>, Seq<u8>)>>,
    key: &str,
    value: Vec<u8>,
)
    requires
        old(out)@ == seq![123u8] + members_text(done),
        plain_name(key@),
    ensures
        final(out)@ == seq![123u8] + members_text(done.push((key@, value@))),
{
    proof {
        broadcast use vstd::string::is_ascii_spec_bytes;
        lemma_members_text_push(done, (key@, value@));
        assert(is_ascii(key));
        if done.len() > 0 {
            lemma_members_text_nonempty(done);
        } else {
            assert(old(out)@ =~= seq![123u8]);
        }
    }
    if out.len() > 1 {
        out.push(44u8);
    }
    out.push(34u8);
    out.extend_from_slice(key.as_bytes());
    out.push(34u8);
    out.push(58u8);
    let mut v = value;
    out.append(&mut v);
    assert(out@ =~= seq![123u8] + members_text(done.push((key@, value@))));
}

proof fn lemma_members_text_nonempty(s: Seq<(Seq<char>, Seq<u8>)>)
    requires
        s.len() > 0,
    ensures
        members_text(s).len() > 0,
    decreases s.len(),
{
    if s.len() > 1 {
        lemma_members_text_nonempty(s.drop_last());
    }
}

/// Closes an object whose members are `done`.
pub(crate) fn close_object(out: &mut Vec<u8>, Ghost(done): Ghost<Seq<(Seq<char>, Seq<u8>)>>)
    requires
        old(out)@ == seq![123u8] + members_text(done),
    ensures
        final(out)@ == object_text(done),
{
    out.push(125u8);
    assert(out@ =~= object_text(done));
}

/// Opens an object.
pub(crate) fn open_object() -> (r: Vec<u8>)
    ensures
        r@ == seq![123u8] + members_text(Seq::<(Seq<char>, Seq<u8>)>::empty()),
{
    let mut out: Vec<u8> = Vec::new();
    out.push(123u8);
    assert(out@ =~= seq![123u8] + members_text(Seq::<(Seq<char>, Seq<u8>)>::empty()));
    out
}

/// Sets entry `k` of an object being built, replacing an entry of that key.
pub(crate) fn put_entry(
    m: serde_json::Map<String, serde_json::Value>,
    k: &str,
    v: serde_json::Value,
) -> (r: serde_json::Map<String, serde_json::Value>)
    ensures
        json_entries(r) == json_entries(m).insert(k@, json_model(v)),
{
    json_map_insert(m, String::from_str(k), v)
}

/// Nesting within a bound is nesting within any larger bound.
pub proof fn lemma_within_depth_mono(x: JsonModel, d: nat, e: nat)
    requires
        d <= e,
        within_depth(x, d),
    ensures
        within_depth(x, e),
    decreases d,
{
    match x {
        JsonModel::Arr(items) => {
            assert forall|i: int| 0 <= i < items.len() implies within_depth(
                #[trigger] items[i],
                (e - 1) as nat,
            ) by {
                lemma_within_depth_mono(items[i], (d - 1) as nat, (e - 1) as nat);
            }
        },
        JsonModel::Obj(entries) => {
            assert forall|k: Seq<char>| #[trigger] entries.contains_key(k) implies within_depth(
                entries[k],
                (e - 1) as nat,
            ) by {
                lemma_within_depth_mono(entries[k], (d - 1) as nat, (e - 1) as nat);
            }
        },
        _ => {},
    }
}

/// `{a,b}` written out.
pub proof fn lemma_object_text_two(a: (Seq<char>, Seq<u8>), b: (Seq<char>, Seq<u8>))
    ensures
        object_text(seq![a, b]) == seq![123u8] + member_text(a) + seq![44u8] + member_text(b)
            + seq![125u8],
{
    assert(seq![a, b].drop_last() =~= seq![a]);
    assert(members_text(seq![a]) == member_text(a));
    assert(members_text(seq![a, b]) == member_text(a) + seq![44u8] + member_text(b));
    assert(object_text(seq![a, b]) =~= seq![123u8] + member_text(a) + seq![44u8] + member_text(b)
        + seq![125u8]);
}

/// `{a,b,c}` written out.
pub proof fn lemma_object_text_three(
    a: (Seq<char>, Seq<u8>),
    b: (Seq<char>, Seq<u8>),
    c: (Seq<char>, Seq<u8>),
)
    ensures
        object_text(seq![a, b, c]) == seq![123u8] + member_text(a) + seq![44u8] + member_text(b)
            + seq![44u8] + member_text(c) + seq![125u8],
{
    assert(seq![a, b, c].drop_last() =~= seq![a, b]);
    assert(seq![a, b].drop_last() =~= seq![a]);
    assert(members_text(seq![a]) == member_text(a));
    assert(members_text(seq![a, b]) == member_text(a) + seq![44u8] + member_text(b));
    assert(members_text(seq![a, b, c]) == member_text(a) + seq![44u8] + member_text(b) + seq![
        44u8,
    ] + member_text(c));
    assert(object_text(seq![a, b, c]) =~= seq![123u8] + member_text(a) + seq![44u8] + member_text(
        b,
    ) + seq![44u8] + member_text(c) + seq![125u8]);
}

} // verus!
