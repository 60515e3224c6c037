//! The JSON Schema documents that describe the events and requests a
//! registry knows. The schemas of the payload types are generated elsewhere
//! and handed in as documents; this module lays out the envelopes around them.
use vstd::prelude::*;
use vstd::string::*;

use crate::json::{
    entries_object, json_array, json_entries, json_map_insert, json_map_new, json_model,
    json_object, json_str, put_entry, JsonModel,
};
use crate::table::{name_texts, NamedTable};

verus! {

/// The models of named documents.
pub open spec fn named_models(s: Seq<(String, serde_json::Value)>) -> Seq<(Seq<char>, JsonModel)> {
    s.map_values(|e: (String, serde_json::Value)| (e.0@, json_model(e.1)))
}

/// `{"type": "string"}`, with `"const": value` when a value is given.
pub open spec fn string_schema(value: Option<Seq<char>>) -> JsonModel {
    match value {
        Some(v) => JsonModel::Obj(
            Map::empty().insert("type"@, JsonModel::Str("string"@)).insert(
                "const"@,
                JsonModel::Str(v),
            ),
        ),
        None => JsonModel::Obj(Map::empty().insert("type"@, JsonModel::Str("string"@))),
    }
}

/// The schema of an event message named `name` whose data has schema `data`:
/// the `event` property must be that name; only `event` is required.
pub open spec fn event_envelope(name: Seq<char>, data: JsonModel) -> JsonModel {
    JsonModel::Obj(
        Map::empty().insert(
            "properties"@,
            JsonModel::Obj(
                Map::empty().insert("event"@, string_schema(Some(name))).insert("data"@, data),
            ),
        ).insert("required"@, JsonModel::Arr(seq![JsonModel::Str("event"@)])),
    )
}

/// What a registered method is described by: its name and the schemas of its
/// params and of its result.
pub open spec fn method_description(method: Seq<char>, params: JsonModel, result: JsonModel) -> JsonModel {
    JsonModel::Obj(
        Map::empty().insert("method"@, JsonModel::Str(method)).insert("params"@, params).insert(
            "result"@,
            result,
        ),
    )
}

/// The schema of a request message for `method`, whose `params` property is
/// described by `description`: `id` is a string, `method` that name; both are
/// required.
pub open spec fn request_envelope(method: Seq<char>, description: JsonModel) -> JsonModel {
    JsonModel::Obj(
        Map::empty().insert(
            "properties"@,
            JsonModel::Obj(
                Map::empty().insert("id"@, string_schema(None)).insert(
                    "method"@,
                    string_schema(Some(method)),
                ).insert("params"@, description),
            ),
        ).insert(
            "required"@,
            JsonModel::Arr(seq![JsonModel::Str("id"@), JsonModel::Str("method"@)]),
        ),
    )
}

/// The whole schema: the event and request envelopes, each by name, under
/// `components`.
pub open spec fn schema_document(
    events: Seq<(Seq<char>, JsonModel)>,
    requests: Seq<(Seq<char>, JsonModel)>,
) -> JsonModel {
    JsonModel::Obj(
        Map::empty().insert(
            "components"@,
            JsonModel::Obj(
                Map::empty().insert("events"@, JsonModel::Obj(entries_object(events))).insert(
                    "requests"@,
                    JsonModel::Obj(entries_object(requests)),
                ),
            ),
        ),
    )
}

fn string_schema_json(value: Option<&str>) -> (r: serde_json::Value)
    ensures
        json_model(r) == string_schema(
            match value {
                Some(v) => Some(v@),
                None => None,
            },
        ),
{
    let m = json_map_new();
    assert(json_entries(m) =~= Map::empty());
    let m = put_entry(m, "type", json_str("string"));
    let m = match value {
        Some(v) => put_entry(m, "const", json_str(v)),
        None => m,
    };
    json_object(m)
}

fn strings_json(a: &str, b: Option<&str>) -> (r: serde_json::Value)
    ensures
        json_model(r) == (match b {
            Some(b) => JsonModel::Arr(seq![JsonModel::Str(a@), JsonModel::Str(b@)]),
            None => JsonModel::Arr(seq![JsonModel::Str(a@)]),
        }),
{
    let mut items: Vec<serde_json::Value> = Vec::new();
    items.push(json_str(a));
    match b {
        Some(b) => items.push(json_str(b)),
        None => {},
    }
    let ghost models = items@.map_values(|x: serde_json::Value| json_model(x));
    let r = json_array(items);
    proof {
        match b {
            Some(b) => assert(models =~= seq![JsonModel::Str(a@), JsonModel::Str(b@)]),
            None => assert(models =~= seq![JsonModel::Str(a@)]),
        }
    }
    r
}

/// The schema of the event message `name` with data schema `data`.
pub fn event_schema(name: &str, data: serde_json::Value) -> (r: serde_json::Value)
    ensures
        json_model(r) == event_envelope(name@, json_model(data)),
{
    let props = json_map_new();
    assert(json_entries(props) =~= Map::empty());
    let props = put_entry(props, "event", string_schema_json(Some(name)));
    let props = put_entry(props, "data", data);
    let m = json_map_new();
    assert(json_entries(m) =~= Map::empty());
    let m = put_entry(m, "properties", json_object(props));
    let m = put_entry(m, "required", strings_json("event", None));
    json_object(m)
}

/// The description of method `method` with params schema `params` and result
/// schema `result`.
pub fn method_schema(method: &str, params: serde_json::Value, result: serde_json::Value) -> (r:
    serde_json::Value)
    ensures
        json_model(r) == method_description(method@, json_model(params), json_model(result)),
{
    let m = json_map_new();
    assert(json_entries(m) =~= Map::empty());
    let m = put_entry(m, "method", json_str(method));
    let m = put_entry(m, "params", params);
    let m = put_entry(m, "result", result);
    json_object(m)
}

/// The schema of the request message for `method` described by
/// `description` (see `method_schema`).
pub fn request_schema(method: &str, description: serde_json::Value) -> (r: serde_json::Value)
    ensures
        json_model(r) == request_envelope(method@, json_model(description)),
{
    let props = json_map_new();
    assert(json_entries(props) =~= Map::empty());
    let props = put_entry(props, "id", string_schema_json(None));
    let props = put_entry(props, "method", string_schema_json(Some(method)));
    let props = put_entry(props, "params", description);
    let m = json_map_new();
    assert(json_entries(m) =~= Map::empty());
    let m = put_entry(m, "properties", json_object(props));
    let m = put_entry(m, "required", strings_json("id", Some("method")));
    json_object(m)
}

fn object_of(entries: &Vec<(String, serde_json::Value)>) -> (r: serde_json::Value)
    ensures
        json_model(r) == JsonModel::Obj(entries_object(named_models(entries@))),
{
    let mut m = json_map_new();
    assert(json_entries(m) =~= Map::empty());
    let ghost models = named_models(entries@);
    let mut i: usize = 0;
    while i < entries.len()
        invariant
            i <= entries@.len(),
            models == named_models(entries@),
            json_entries(m) == entries_object(models.take(i as int)),
        decreases entries@.len() - i,
    {
        let key = entries[i].0.clone();
        let value = entries[i].1.clone();
        m = json_map_insert(m, key, value);
        assert(models.take(i + 1).drop_last() =~= models.take(i as int));
        i = i + 1;
    }
    assert(models.take(entries@.len() as int) =~= models);
    json_object(m)
}

/// The events a registry describes: the data schema of each, by name, and
/// the names in the order they were first registered.
pub struct EventSchemas {
    table: NamedTable<serde_json::Value>,
}

impl EventSchemas {
    /// The data schema of each event, by name.
    pub closed spec fn event_schemas(&self) -> Map<Seq<char>, JsonModel> {
        self.table.entries().map_values(|v: serde_json::Value| json_model(v))
    }

    /// The event names, in the order they were first registered.
    pub closed spec fn event_names(&self) -> Seq<Seq<char>> {
        self.table.names()
    }

    /// No event described.
    pub fn new() -> (r: EventSchemas)
        ensures
            r.event_schemas() == Map::<Seq<char>, JsonModel>::empty(),
            r.event_names() == Seq::<Seq<char>>::empty(),
    {
        let r = EventSchemas { table: NamedTable::new() };
        assert(r.event_schemas() =~= Map::<Seq<char>, JsonModel>::empty());
        r
    }

    /// Describes event `name` by the data schema `schema`, replacing the
    /// schema it had; a new name goes after the others.
    pub fn register_event_schema(&mut self, name: &str, schema: serde_json::Value)
        ensures
            final(self).event_schemas() == old(self).event_schemas().insert(
                name@,
                json_model(schema),
            ),
            final(self).event_names() == (if old(self).event_schemas().contains_key(name@) {
                old(self).event_names()
            } else {
                old(self).event_names().push(name@)
            }),
    {
        self.table.insert(name, schema);
        assert(self.event_schemas() =~= old(self).event_schemas().insert(name@, json_model(schema)));
    }

    /// The envelope of each described event, under its name, in the order
    /// the names were first registered.
    pub fn envelopes(&self) -> (r: Vec<(String, serde_json::Value)>)
        ensures
            self.event_names().no_duplicates(),
            forall|k: Seq<char>|
                #![trigger self.event_schemas().contains_key(k)]
                self.event_schemas().contains_key(k) <==> self.event_names().contains(k),
            r@.len() == self.event_names().len(),
            forall|i: int|
                0 <= i < r@.len() ==> (#[trigger] r@[i]).0@ == self.event_names()[i] && json_model(
                    r@[i].1,
                ) == event_envelope(
                    self.event_names()[i],
                    self.event_schemas()[self.event_names()[i]],
                ),
    {
        let names = self.table.names_in_order();
        assert forall|k: Seq<char>| #![trigger self.event_schemas().contains_key(k)]
            self.event_schemas().contains_key(k) <==> self.event_names().contains(k) by {
            assert(self.event_schemas().contains_key(k) == self.table.entries().contains_key(k));
        }
        let mut r: Vec<(String, serde_json::Value)> = Vec::new();
        let mut i: usize = 0;
        while i < names.len()
            invariant
                i <= names@.len(),
                r@.len() == i,
                name_texts(names@) == self.event_names(),
                forall|k: Seq<char>|
                    #![trigger self.table.entries().contains_key(k)]
                    self.table.entries().contains_key(k) <==> self.event_names().contains(k),
                forall|j: int|
                    0 <= j < i ==> (#[trigger] r@[j]).0@ == self.event_names()[j] && json_model(
                        r@[j].1,
                    ) == event_envelope(
                        self.event_names()[j],
                        self.event_schemas()[self.event_names()[j]],
                    ),
            decreases names@.len() - i,
        {
            let name = &names[i];
            assert(self.event_names()[i as int] == name@);
            assert(self.event_names().contains(name@));
            match self.table.get(name.as_str()) {
                Some(schema) => {
                    let envelope = event_schema(name.as_str(), schema.clone());
                    r.push((name.clone(), envelope));
                },
                None => {},
            }
            i = i + 1;
        }
        r
    }
}

/// The envelope of each method's request, under the method's name, from the
/// method's name and the schemas of its params and of its result.
pub fn request_envelopes(methods: &Vec<(String, serde_json::Value, serde_json::Value)>) -> (r: Vec<
    (String, serde_json::Value),
>)
    ensures
        r@.len() == methods@.len(),
        forall|i: int|
            0 <= i < r@.len() ==> (#[trigger] r@[i]).0@ == methods@[i].0@ && json_model(r@[i].1)
                == request_envelope(
                methods@[i].0@,
                method_description(
                    methods@[i].0@,
                    json_model(methods@[i].1),
                    json_model(methods@[i].2),
                ),
            ),
{
    let mut r: Vec<(String, serde_json::Value)> = Vec::new();
    let mut i: usize = 0;
    while i < methods.len()
        invariant
            i <= methods@.len(),
            r@.len() == i,
            forall|j: int|
                0 <= j < i ==> (#[trigger] r@[j]).0@ == methods@[j].0@ && json_model(r@[j].1)
                    == request_envelope(
                    methods@[j].0@,
                    method_description(
                        methods@[j].0@,
                        json_model(methods@[j].1),
                        json_model(methods@[j].2),
                    ),
                ),
        decreases methods@.len() - i,
    {
        let name = methods[i].0.as_str();
        let description = method_schema(name, methods[i].1.clone(), methods[i].2.clone());
        r.push((methods[i].0.clone(), request_schema(name, description)));
        i = i + 1;
    }
    r
}

/// The object built from named entries has exactly their names as keys.
pub proof fn lemma_entries_object_keys(s: Seq<(Seq<char>, JsonModel)>, k: Seq<char>)
    ensures
        entries_object(s).contains_key(k) <==> exists|i: int| 0 <= i < s.len() && #[trigger] s[i].0
            == k,
    decreases s.len(),
{
    if s.len() > 0 {
        lemma_entries_object_keys(s.drop_last(), k);
        if entries_object(s.drop_last()).contains_key(k) {
            let i = choose|i: int| 0 <= i < s.drop_last().len() && #[trigger] s.drop_last()[i].0 == k;
            assert(s[i].0 == k);
        }
        if exists|i: int| 0 <= i < s.len() && #[trigger] s[i].0 == k {
            let i = choose|i: int| 0 <= i < s.len() && #[trigger] s[i].0 == k;
            if i < s.len() - 1 {
                assert(s.drop_last()[i].0 == k);
            }
        }
    }
}

/// A document object built from envelopes, each under its name, has as keys
/// exactly those names: for the events of an `EventSchemas`, exactly the
/// described events (see `EventSchemas::envelopes`); for the methods of a
/// `HandlerRoutes`, exactly the methods with a handler.
pub proof fn lemma_document_keys(r: Seq<(String, serde_json::Value)>, names: Seq<Seq<char>>)
    requires
        r.len() == names.len(),
        forall|i: int| 0 <= i < r.len() ==> (#[trigger] r[i]).0@ == names[i],
    ensures
        forall|k: Seq<char>|
            #[trigger] entries_object(named_models(r)).contains_key(k) <==> names.contains(k),
{
    let s = named_models(r);
    assert forall|k: Seq<char>|
        #[trigger] entries_object(s).contains_key(k) <==> names.contains(k) by {
        lemma_entries_object_keys(s, k);
        if names.contains(k) {
            let i = choose|i: int| 0 <= i < names.len() && names[i] == k;
            assert(r[i].0@ == names[i]);
            assert(s[i].0 == k);
        }
        if exists|i: int| 0 <= i < s.len() && #[trigger] s[i].0 == k {
            let i = choose|i: int| 0 <= i < s.len() && #[trigger] s[i].0 == k;
            assert(r[i].0@ == names[i]);
        }
    }
}

/// The whole schema document from the event envelopes and the request
/// envelopes, each under its name.
pub fn components_schema(
    events: &Vec<(String, serde_json::Value)>,
    requests: &Vec<(String, serde_json::Value)>,
) -> (r: serde_json::Value)
    ensures
        json_model(r) == schema_document(named_models(events@), named_models(requests@)),
{
    let inner = json_map_new();
    assert(json_entries(inner) =~= Map::empty());
    let inner = put_entry(inner, "events", object_of(events));
    let inner = put_entry(inner, "requests", object_of(requests));
    let outer = json_map_new();
    assert(json_entries(outer) =~= Map::empty());
    let outer = put_entry(outer, "components", json_object(inner));
    json_object(outer)
}

} // verus!
