//! A JSON document tree and its mathematical model.
//!
//! `JsonValue` holds what the library reads and writes of JSON documents;
//! `Json` is its model, in which strings are character sequences and numbers
//! are integers or, for fractional numbers, their decimal text.
use vstd::prelude::*;
use crate::text::{owned, str_eq};

verus! {

/// A JSON number: a non-negative integer, a negative integer, or a number
/// with a fractional part or exponent kept as its decimal text.
#[derive(Debug)]
pub enum JsonNumber {
    PosInt(u64),
    NegInt(i64),
    Float(String),
}

/// A JSON value. Object members keep their order; lookups find the first
/// member with a given key.
#[derive(Debug)]
pub enum JsonValue {
    Null,
    Bool(bool),
    Number(JsonNumber),
    String(String),
    Array(Vec<JsonValue>),
    Object(Vec<(String, JsonValue)>),
}

/// The model of a JSON value.
pub enum Json {
    Null,
    Bool(bool),
    Int(int),
    Float(Seq<char>),
    Str(Seq<char>),
    Array(Seq<Json>),
    Object(Seq<(Seq<char>, Json)>),
}

impl JsonValue {
    pub open spec fn model(&self) -> Json
        decreases self,
    {
        match self {
            JsonValue::Null => Json::Null,
            JsonValue::Bool(b) => Json::Bool(*b),
            JsonValue::Number(JsonNumber::PosInt(n)) => Json::Int(*n as int),
            JsonValue::Number(JsonNumber::NegInt(n)) => Json::Int(*n as int),
            JsonValue::Number(JsonNumber::Float(t)) => Json::Float(t@),
            JsonValue::String(s) => Json::Str(s@),
            JsonValue::Array(items) => Json::Array(
                Seq::new(
                    items@.len(),
                    |i: int|
                        if 0 <= i < items@.len() {
                            items@[i].model()
                        } else {
                            Json::Null
                        },
                ),
            ),
            JsonValue::Object(entries) => Json::Object(
                Seq::new(
                    entries@.len(),
                    |i: int|
                        if 0 <= i < entries@.len() {
                            (entries@[i].0@, entries@[i].1.model())
                        } else {
                            (Seq::empty(), Json::Null)
                        },
                ),
            ),
        }
    }
}

/// The value of the first member named `key`.
pub open spec fn lookup(entries: Seq<(Seq<char>, Json)>, key: Seq<char>) -> Option<Json>
    decreases entries.len(),
{
    if entries.len() == 0 {
        None
    } else if entries[0].0 == key {
        Some(entries[0].1)
    } else {
        lookup(entries.drop_first(), key)
    }
}

impl Json {
    /// `Value::get` with a string key: the member of an object, if any.
    pub open spec fn get(self, key: Seq<char>) -> Option<Json> {
        match self {
            Json::Object(entries) => lookup(entries, key),
            _ => None,
        }
    }

    /// `value[key]`: the member of an object, or null.
    pub open spec fn at(self, key: Seq<char>) -> Json {
        match self.get(key) {
            Some(v) => v,
            None => Json::Null,
        }
    }

    /// `Value::as_str`.
    pub open spec fn as_str(self) -> Option<Seq<char>> {
        match self {
            Json::Str(s) => Some(s),
            _ => None,
        }
    }

    /// `Value::is_string`.
    pub open spec fn is_string(self) -> bool {
        self is Str
    }

    /// `Value::is_object`.
    pub open spec fn is_object(self) -> bool {
        self is Object
    }

    /// `Value::is_array`.
    pub open spec fn is_array(self) -> bool {
        self is Array
    }

    /// `Value::is_null`.
    pub open spec fn is_null(self) -> bool {
        self is Null
    }

    /// `Value::is_i64`: an integer within the range of `i64`.
    pub open spec fn is_i64(self) -> bool {
        match self {
            Json::Int(n) => i64::MIN <= n && n <= i64::MAX,
            _ => false,
        }
    }

    /// `Value::is_u64`: a non-negative integer (within the range of `u64`).
    pub open spec fn is_u64(self) -> bool {
        match self {
            Json::Int(n) => 0 <= n && n <= u64::MAX,
            _ => false,
        }
    }

    /// `Value::as_i64`.
    pub open spec fn as_i64(self) -> Option<int> {
        match self {
            Json::Int(n) => if i64::MIN <= n && n <= i64::MAX {
                Some(n)
            } else {
                None
            },
            _ => None,
        }
    }

    /// `Value::as_array`.
    pub open spec fn as_array(self) -> Option<Seq<Json>> {
        match self {
            Json::Array(items) => Some(items),
            _ => None,
        }
    }

    /// A request ID that JSON-RPC accepts: a string or an integer that
    /// fits `i64` or `u64`.
    pub open spec fn is_id(self) -> bool {
        self.is_string() || self.is_i64() || self.is_u64()
    }
}

/// An optional string as a JSON model: null when absent.
pub open spec fn opt_str(o: Option<String>) -> Json {
    match o {
        Some(t) => Json::Str(t@),
        None => Json::Null,
    }
}

impl JsonValue {
    /// A copy of the value.
    pub fn deep_clone(&self) -> (r: JsonValue)
        ensures
            r.model() == self.model(),
        decreases self,
    {
        match self {
            JsonValue::Null => JsonValue::Null,
            JsonValue::Bool(b) => JsonValue::Bool(*b),
            JsonValue::Number(JsonNumber::PosInt(n)) => JsonValue::Number(JsonNumber::PosInt(*n)),
            JsonValue::Number(JsonNumber::NegInt(n)) => JsonValue::Number(JsonNumber::NegInt(*n)),
            JsonValue::Number(JsonNumber::Float(t)) => JsonValue::Number(
                JsonNumber::Float(t.clone()),
            ),
            JsonValue::String(s) => JsonValue::String(s.clone()),
            JsonValue::Array(items) => {
                let mut out: Vec<JsonValue> = Vec::new();
                let mut i: usize = 0;
                while i < items.len()
                    invariant
                        i <= items@.len(),
                        *self == JsonValue::Array(*items),
                        out@.len() == i,
                        forall|j: int| 0 <= j < i ==> #[trigger] out@[j].model() == items@[j].model(),
                    decreases items.len() - i,
                {
                    proof {
                        assert(decreases_to!(*items => items@));
                        assert(decreases_to!(items@ => items@[i as int]));
                        assert(decreases_to!(*self => self->Array_0));
                        assert(decreases_to!(*self => items@[i as int]));
                    }
                    let v = items[i].deep_clone();
                    out.push(v);
                    i = i + 1;
                }
                proof {
                    lemma_array_model(out);
                    lemma_array_model(*items);
                    assert(out@.map_values(|v: JsonValue| v.model()) =~= items@.map_values(
                        |v: JsonValue| v.model(),
                    ));
                }
                JsonValue::Array(out)
            },
            JsonValue::Object(entries) => {
                let mut out: Vec<(String, JsonValue)> = Vec::new();
                let mut i: usize = 0;
                while i < entries.len()
                    invariant
                        i <= entries@.len(),
                        *self == JsonValue::Object(*entries),
                        out@.len() == i,
                        forall|j: int| 0 <= j < i ==> (#[trigger] out@[j]).0@ == entries@[j].0@,
                        forall|j: int| 0 <= j < i ==> (#[trigger] out@[j]).1.model() == entries@[j].1.model(),
                    decreases entries.len() - i,
                {
                    proof {
                        assert(decreases_to!(*entries => entries@));
                        assert(decreases_to!(entries@ => entries@[i as int]));
                        assert(decreases_to!(entries@[i as int] => entries@[i as int].1));
                        assert(decreases_to!(*self => self->Object_0));
                        assert(decreases_to!(*self => entries@[i as int].1));
                    }
                    let v = entries[i].1.deep_clone();
                    let k = entries[i].0.clone();
                    out.push((k, v));
                    i = i + 1;
                }
                proof {
                    lemma_object_model(out);
                    lemma_object_model(*entries);
                    assert(members(out@) =~= members(entries@));
                }
                JsonValue::Object(out)
            },
        }
    }

    /// `Value::get` with a string key.
    pub fn get(&self, key: &str) -> (r: Option<&JsonValue>)
        ensures
            match r {
                Some(v) => self.model().get(key@) == Some(v.model()),
                None => self.model().get(key@) is None,
            },
    {
        match self {
            JsonValue::Object(entries) => {
                let ghost es = self.model()->Object_0;
                let mut i: usize = 0;
                assert(es.subrange(0, es.len() as int) =~= es);
                while i < entries.len()
                    invariant
                        i <= entries@.len(),
                        es.len() == entries@.len(),
                        es == self.model()->Object_0,
                        *self == JsonValue::Object(*entries),
                        forall|j: int| 0 <= j < entries@.len() ==> #[trigger] es[j] == (
                        entries@[j].0@, entries@[j].1.model()),
                        lookup(es, key@) == lookup(es.subrange(i as int, es.len() as int), key@),
                    decreases entries.len() - i,
                {
                    let ghost rest = es.subrange(i as int, es.len() as int);
                    assert(rest[0] == es[i as int]);
                    if str_eq(entries[i].0.as_str(), key) {
                        return Some(&entries[i].1);
                    }
                    assert(rest.drop_first() =~= es.subrange(i + 1, es.len() as int));
                    i = i + 1;
                }
                None
            },
            _ => None,
        }
    }

    /// `Value::as_str`.
    pub fn as_str(&self) -> (r: Option<&str>)
        ensures
            match r {
                Some(s) => self.model().as_str() == Some(s@),
                None => self.model().as_str() is None,
            },
    {
        match self {
            JsonValue::String(s) => Some(s.as_str()),
            _ => None,
        }
    }

    /// `Value::is_object`.
    pub fn is_object(&self) -> (r: bool)
        ensures
            r == self.model().is_object(),
    {
        match self {
            JsonValue::Object(_) => true,
            _ => false,
        }
    }

    /// `Value::is_string`.
    pub fn is_string(&self) -> (r: bool)
        ensures
            r == self.model().is_string(),
    {
        match self {
            JsonValue::String(_) => true,
            _ => false,
        }
    }

    /// `Value::is_null`.
    pub fn is_null(&self) -> (r: bool)
        ensures
            r == self.model().is_null(),
    {
        match self {
            JsonValue::Null => true,
            _ => false,
        }
    }

    /// A string, an integer fitting `i64` or `u64`: what JSON-RPC accepts as
    /// a request ID.
    pub fn is_id(&self) -> (r: bool)
        ensures
            r == self.model().is_id(),
    {
        match self {
            JsonValue::String(_) => true,
            JsonValue::Number(JsonNumber::PosInt(_)) => true,
            JsonValue::Number(JsonNumber::NegInt(_)) => true,
            _ => false,
        }
    }

    /// `Value::as_i64`.
    pub fn as_i64(&self) -> (r: Option<i64>)
        ensures
            match r {
                Some(n) => self.model().as_i64() == Some(n as int),
                None => self.model().as_i64() is None,
            },
    {
        match self {
            JsonValue::Number(JsonNumber::PosInt(n)) => {
                if *n <= 9223372036854775807u64 {
                    Some(*n as i64)
                } else {
                    None
                }
            },
            JsonValue::Number(JsonNumber::NegInt(n)) => Some(*n),
            _ => None,
        }
    }

    /// `Value::as_array`.
    pub fn as_array(&self) -> (r: Option<&Vec<JsonValue>>)
        ensures
            match r {
                Some(items) => self.model().as_array() == Some(
                    items@.map_values(|v: JsonValue| v.model()),
                ),
                None => self.model().as_array() is None,
            },
    {
        match self {
            JsonValue::Array(items) => {
                proof {
                    lemma_array_model(*items);
                }
                Some(items)
            },
            _ => None,
        }
    }

    /// A JSON string holding the given text.
    pub fn text(s: &str) -> (r: JsonValue)
        ensures
            r.model() == Json::Str(s@),
    {
        JsonValue::String(owned(s))
    }

    /// A JSON integer.
    pub fn integer(n: i64) -> (r: JsonValue)
        ensures
            r.model() == Json::Int(n as int),
    {
        if n < 0 {
            JsonValue::Number(JsonNumber::NegInt(n))
        } else {
            JsonValue::Number(JsonNumber::PosInt(n as u64))
        }
    }

    /// A JSON integer.
    pub fn uint(n: u64) -> (r: JsonValue)
        ensures
            r.model() == Json::Int(n as int),
    {
        JsonValue::Number(JsonNumber::PosInt(n))
    }

    /// A string, or null when absent.
    pub fn opt_text(s: &Option<String>) -> (r: JsonValue)
        ensures
            r.model() == match s {
                Some(t) => Json::Str(t@),
                None => Json::Null,
            },
    {
        match s {
            Some(t) => JsonValue::text(t.as_str()),
            None => JsonValue::Null,
        }
    }

    /// An array of strings.
    pub fn texts(items: &Vec<String>) -> (r: JsonValue)
        ensures
            r.model() == Json::Array(items@.map_values(|s: String| Json::Str(s@))),
    {
        let mut out: Vec<JsonValue> = Vec::new();
        for i in 0..items.len()
            invariant
                out@.len() == i,
                forall|j: int| 0 <= j < i ==> #[trigger] out@[j].model() == Json::Str(items@[j]@),
        {
            out.push(JsonValue::text(items[i].as_str()));
        }
        proof {
            lemma_array_model(out);
            assert(out@.map_values(|v: JsonValue| v.model()) =~= items@.map_values(|s: String| Json::Str(s@)));
        }
        JsonValue::Array(out)
    }
}

/// The model of an optional reference into a document: null when absent.
pub open spec fn opt_model(o: Option<&JsonValue>) -> Json {
    match o {
        Some(v) => v.model(),
        None => Json::Null,
    }
}

/// `value[key]` on an optional reference: absent members read as null.
pub fn member_at<'a>(o: Option<&'a JsonValue>, key: &str) -> (r: Option<&'a JsonValue>)
    ensures
        opt_model(r) == opt_model(o).at(key@),
        r is Some <==> opt_model(o).get(key@) is Some,
{
    match o {
        Some(v) => v.get(key),
        None => None,
    }
}

/// The models of a list of values.
pub open spec fn models(items: Seq<JsonValue>) -> Seq<Json> {
    items.map_values(|v: JsonValue| v.model())
}

/// The members without those named `key`.
pub open spec fn strip_key(entries: Seq<(Seq<char>, Json)>, key: Seq<char>) -> Seq<(Seq<char>, Json)>
    decreases entries.len(),
{
    if entries.len() == 0 {
        Seq::empty()
    } else {
        let rest = strip_key(entries.drop_last(), key);
        if entries.last().0 == key {
            rest
        } else {
            rest.push(entries.last())
        }
    }
}

/// An object without its members named `key`; other values unchanged.
pub open spec fn without_key(v: Json, key: Seq<char>) -> Json {
    match v {
        Json::Object(entries) => Json::Object(strip_key(entries, key)),
        _ => v,
    }
}

/// The members with the first one named `key` given `value`, or with a
/// member added at the end where none is named so.
pub open spec fn upsert(entries: Seq<(Seq<char>, Json)>, key: Seq<char>, value: Json) -> Seq<
    (Seq<char>, Json),
>
    decreases entries.len(),
{
    if entries.len() == 0 {
        seq![(key, value)]
    } else if entries[0].0 == key {
        entries.update(0, (key, value))
    } else {
        seq![entries[0]] + upsert(entries.drop_first(), key, value)
    }
}

/// `value[key] = member` on a null or an object: a null becomes an object.
pub open spec fn with_member(v: Json, key: Seq<char>, value: Json) -> Json {
    match v {
        Json::Object(entries) => Json::Object(upsert(entries, key, value)),
        _ => Json::Object(seq![(key, value)]),
    }
}

/// A null or an object: what `value[key] = ..` accepts.
pub open spec fn settable(v: Json) -> bool {
    v is Null || v is Object
}

impl JsonValue {
    /// A copy without the members named `key`, where the value is an object.
    pub fn without(&self, key: &str) -> (r: JsonValue)
        ensures
            r.model() == without_key(self.model(), key@),
    {
        match self {
            JsonValue::Object(entries) => {
                proof {
                    lemma_object_model(*entries);
                }
                let ghost es = members(entries@);
                let mut out: Vec<(String, JsonValue)> = Vec::new();
                for i in 0..entries.len()
                    invariant
                        es == members(entries@),
                        members(out@) == strip_key(es.take(i as int), key@),
                {
                    assert(es.take(i + 1).drop_last() =~= es.take(i as int));
                    assert(es.take(i + 1).last() == es[i as int]);
                    if !str_eq(entries[i].0.as_str(), key) {
                        let ghost before = out@;
                        out.push((entries[i].0.clone(), entries[i].1.deep_clone()));
                        assert(members(out@) =~= members(before).push(es[i as int]));
                    }
                }
                assert(es.take(entries@.len() as int) =~= es);
                proof {
                    lemma_object_model(out);
                }
                JsonValue::Object(out)
            },
            _ => self.deep_clone(),
        }
    }

    /// `value[key] = member` on a null or an object.
    pub fn set(self, key: &str, value: JsonValue) -> (r: JsonValue)
        requires
            settable(self.model()),
        ensures
            r.model() == with_member(self.model(), key@, value.model()),
    {
        match self {
            JsonValue::Object(entries) => {
                proof {
                    lemma_object_model(entries);
                }
                let ghost es = members(entries@);
                let mut i: usize = 0;
                while i < entries.len() && !str_eq(entries[i].0.as_str(), key)
                    invariant
                        i <= entries@.len(),
                        es == members(entries@),
                        forall|j: int| 0 <= j < i ==> es[j].0 != key@,
                    decreases entries.len() - i,
                {
                    i = i + 1;
                }
                let ghost vm = value.model();
                let mut entries = entries;
                if i < entries.len() {
                    entries.set(i, (owned(key), value));
                    proof {
                        lemma_upsert_at(es, key@, vm, i as int);
                        assert(members(entries@) =~= es.update(i as int, (key@, vm)));
                    }
                } else {
                    entries.push((owned(key), value));
                    proof {
                        lemma_upsert_absent(es, key@, vm);
                        assert(members(entries@) =~= es.push((key@, vm)));
                    }
                }
                proof {
                    lemma_object_model(entries);
                }
                JsonValue::Object(entries)
            },
            _ => {
                let mut entries: Vec<(String, JsonValue)> = Vec::new();
                let ghost vm = value.model();
                entries.push((owned(key), value));
                proof {
                    lemma_object_model(entries);
                    assert(members(entries@) =~= seq![(key@, vm)]);
                }
                JsonValue::Object(entries)
            },
        }
    }
}

/// Setting a key whose first member sits at `i` replaces that member.
pub proof fn lemma_upsert_at(es: Seq<(Seq<char>, Json)>, key: Seq<char>, value: Json, i: int)
    requires
        0 <= i < es.len(),
        es[i].0 == key,
        forall|j: int| 0 <= j < i ==> es[j].0 != key,
    ensures
        upsert(es, key, value) == es.update(i, (key, value)),
    decreases i,
{
    if i > 0 {
        lemma_upsert_at(es.drop_first(), key, value, i - 1);
        assert(seq![es[0]] + es.drop_first().update(i - 1, (key, value)) =~= es.update(i, (key, value)));
    }
}

/// Setting a key that no member has adds a member at the end.
pub proof fn lemma_upsert_absent(es: Seq<(Seq<char>, Json)>, key: Seq<char>, value: Json)
    requires
        forall|j: int| 0 <= j < es.len() ==> es[j].0 != key,
    ensures
        upsert(es, key, value) == es.push((key, value)),
    decreases es.len(),
{
    if es.len() > 0 {
        lemma_upsert_absent(es.drop_first(), key, value);
        assert(seq![es[0]] + es.drop_first().push((key, value)) =~= es.push((key, value)));
    }
}

/// Object members given as (key, value) pairs, as a model.
pub open spec fn members(entries: Seq<(String, JsonValue)>) -> Seq<(Seq<char>, Json)> {
    entries.map_values(|e: (String, JsonValue)| (e.0@, e.1.model()))
}

/// The model of an array is the models of its items.
pub proof fn lemma_array_model(items: Vec<JsonValue>)
    ensures
        JsonValue::Array(items).model() == Json::Array(items@.map_values(|v: JsonValue| v.model())),
{
    assert(JsonValue::Array(items).model()->Array_0 =~= items@.map_values(|v: JsonValue| v.model()));
}

/// The model of an object is the models of its members.
pub proof fn lemma_object_model(entries: Vec<(String, JsonValue)>)
    ensures
        JsonValue::Object(entries).model() == Json::Object(members(entries@)),
{
    assert(JsonValue::Object(entries).model()->Object_0 =~= members(entries@));
}

/// An object with the given members, in order.
pub fn object(entries: Vec<(String, JsonValue)>) -> (r: JsonValue)
    ensures
        r.model() == Json::Object(members(entries@)),
{
    proof {
        lemma_object_model(entries);
    }
    JsonValue::Object(entries)
}

/// An array with the given items, in order.
pub fn array(items: Vec<JsonValue>) -> (r: JsonValue)
    ensures
        r.model() == Json::Array(items@.map_values(|v: JsonValue| v.model())),
{
    proof {
        lemma_array_model(items);
    }
    JsonValue::Array(items)
}

/// A member with a textual key.
pub fn member(key: &str, value: JsonValue) -> (r: (String, JsonValue))
    ensures
        r.0@ == key@,
        r.1 == value,
{
    (owned(key), value)
}

} // verus!
