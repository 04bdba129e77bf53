//! Croissant dataset metadata: files, record sets and typed fields.
use vstd::prelude::*;
use crate::json::{array, member, object, opt_str, Json, JsonValue};
use crate::text::owned;

verus! {

/// A typed field of a record set, with an optional schema.org meaning.
#[derive(Debug, Clone, PartialEq, Eq)]
pub struct Field {
    pub name: String,
    pub data_type: String,
    pub description: String,
    pub semantic_type: Option<String>,
}

impl Field {
    /// A field with no semantic type.
    pub fn new(name: &str, data_type: &str, description: &str) -> (r: Field)
        ensures
            r.name@ == name@,
            r.data_type@ == data_type@,
            r.description@ == description@,
            r.semantic_type is None,
    {
        Field {
            name: owned(name),
            data_type: owned(data_type),
            description: owned(description),
            semantic_type: None,
        }
    }

    /// The same field with the given semantic type.
    pub fn semantic_type(self, semantic_type: &str) -> (r: Field)
        ensures
            r.name == self.name,
            r.data_type == self.data_type,
            r.description == self.description,
            r.semantic_type matches Some(t) && t@ == semantic_type@,
    {
        Field { semantic_type: Some(owned(semantic_type)), ..self }
    }
}

/// A file distributed with a dataset.
#[derive(Debug, Clone, PartialEq, Eq)]
pub struct FileObject {
    pub id: String,
    pub name: String,
    pub content_url: String,
    pub encoding_format: String,
}

/// A named set of records with typed fields.
#[derive(Debug, Clone, PartialEq, Eq)]
pub struct RecordSet {
    pub id: String,
    pub name: String,
    pub fields: Vec<Field>,
}

/// A Croissant dataset description.
#[derive(Debug, Clone, PartialEq, Eq)]
pub struct CroissantDataset {
    pub id: String,
    pub name: String,
    pub description: String,
    pub license: String,
    pub creators: Vec<String>,
    pub files: Vec<FileObject>,
    pub record_sets: Vec<RecordSet>,
    pub keywords: Vec<String>,
}

/// The JSON-LD context of a Croissant document.
pub open spec fn croissant_context() -> Json {
    Json::Object(
        seq![
            ("@vocab"@, Json::Str("https://schema.org/"@)),
            ("cr"@, Json::Str("http://mlcommons.org/croissant/"@)),
            ("dcat"@, Json::Str("http://www.w3.org/ns/dcat#"@)),
            ("odrl"@, Json::Str("http://www.w3.org/ns/odrl/2/"@)),
        ],
    )
}

/// A creator, as a schema.org person.
pub open spec fn person_json(name: String) -> Json {
    Json::Object(seq![("@type"@, Json::Str("Person"@)), ("name"@, Json::Str(name@))])
}

/// A file, as a Croissant file object.
pub open spec fn file_json(f: FileObject) -> Json {
    Json::Object(
        seq![
            ("@type"@, Json::Str("cr:FileObject"@)),
            ("@id"@, Json::Str(f.id@)),
            ("name"@, Json::Str(f.name@)),
            ("contentUrl"@, Json::Str(f.content_url@)),
            ("encodingFormat"@, Json::Str(f.encoding_format@)),
        ],
    )
}

/// A field, as a Croissant field; its semantic type is `sameAs`.
pub open spec fn field_json(f: Field) -> Json {
    Json::Object(
        seq![
            ("@type"@, Json::Str("cr:Field"@)),
            ("name"@, Json::Str(f.name@)),
            ("dataType"@, Json::Str(f.data_type@)),
            ("description"@, Json::Str(f.description@)),
            ("sameAs"@, opt_str(f.semantic_type)),
        ],
    )
}

/// A record set, as a Croissant record set with its fields in order.
pub open spec fn record_set_json(rs: RecordSet) -> Json {
    Json::Object(
        seq![
            ("@type"@, Json::Str("cr:RecordSet"@)),
            ("@id"@, Json::Str(rs.id@)),
            ("name"@, Json::Str(rs.name@)),
            ("field"@, Json::Array(rs.fields@.map_values(|f: Field| field_json(f)))),
        ],
    )
}

/// A dataset as a Croissant JSON-LD document.
pub open spec fn croissant_json(d: CroissantDataset) -> Json {
    Json::Object(
        seq![
            ("@context"@, croissant_context()),
            ("@type"@, Json::Str("cr:Dataset"@)),
            ("@id"@, Json::Str(d.id@)),
            ("name"@, Json::Str(d.name@)),
            ("description"@, Json::Str(d.description@)),
            ("license"@, Json::Str(d.license@)),
            ("creator"@, Json::Array(d.creators@.map_values(|n: String| person_json(n)))),
            ("keywords"@, Json::Array(d.keywords@.map_values(|k: String| Json::Str(k@)))),
            ("distribution"@, Json::Array(d.files@.map_values(|f: FileObject| file_json(f)))),
            ("recordSet"@, Json::Array(d.record_sets@.map_values(|rs: RecordSet| record_set_json(rs)))),
        ],
    )
}

fn context_value() -> (r: JsonValue)
    ensures
        r.model() == croissant_context(),
{
    let mut e: Vec<(String, JsonValue)> = Vec::new();
    e.push(member("@vocab", JsonValue::text("https://schema.org/")));
    e.push(member("cr", JsonValue::text("http://mlcommons.org/croissant/")));
    e.push(member("dcat", JsonValue::text("http://www.w3.org/ns/dcat#")));
    e.push(member("odrl", JsonValue::text("http://www.w3.org/ns/odrl/2/")));
    let ghost ev = e@;
    let r = object(e);
    assert(crate::json::members(ev) =~= croissant_context()->Object_0);
    r
}

fn person_value(name: &String) -> (r: JsonValue)
    ensures
        r.model() == person_json(*name),
{
    let mut e: Vec<(String, JsonValue)> = Vec::new();
    e.push(member("@type", JsonValue::text("Person")));
    e.push(member("name", JsonValue::text(name.as_str())));
    let ghost ev = e@;
    let r = object(e);
    assert(crate::json::members(ev) =~= person_json(*name)->Object_0);
    r
}

fn file_value(f: &FileObject) -> (r: JsonValue)
    ensures
        r.model() == file_json(*f),
{
    let mut e: Vec<(String, JsonValue)> = Vec::new();
    e.push(member("@type", JsonValue::text("cr:FileObject")));
    e.push(member("@id", JsonValue::text(f.id.as_str())));
    e.push(member("name", JsonValue::text(f.name.as_str())));
    e.push(member("contentUrl", JsonValue::text(f.content_url.as_str())));
    e.push(member("encodingFormat", JsonValue::text(f.encoding_format.as_str())));
    let ghost ev = e@;
    let r = object(e);
    assert(crate::json::members(ev) =~= file_json(*f)->Object_0);
    r
}

fn field_value(f: &Field) -> (r: JsonValue)
    ensures
        r.model() == field_json(*f),
{
    let mut e: Vec<(String, JsonValue)> = Vec::new();
    e.push(member("@type", JsonValue::text("cr:Field")));
    e.push(member("name", JsonValue::text(f.name.as_str())));
    e.push(member("dataType", JsonValue::text(f.data_type.as_str())));
    e.push(member("description", JsonValue::text(f.description.as_str())));
    e.push(member("sameAs", JsonValue::opt_text(&f.semantic_type)));
    let ghost ev = e@;
    let r = object(e);
    assert(crate::json::members(ev) =~= field_json(*f)->Object_0);
    r
}

fn record_set_value(rs: &RecordSet) -> (r: JsonValue)
    ensures
        r.model() == record_set_json(*rs),
{
    let mut fields: Vec<JsonValue> = Vec::new();
    for i in 0..rs.fields.len()
        invariant
            fields@.len() == i,
            forall|j: int| 0 <= j < i ==> #[trigger] fields@[j].model() == field_json(rs.fields@[j]),
    {
        fields.push(field_value(&rs.fields[i]));
    }
    assert(fields@.map_values(|v: JsonValue| v.model()) =~= rs.fields@.map_values(|f: Field| field_json(f)));
    let mut e: Vec<(String, JsonValue)> = Vec::new();
    e.push(member("@type", JsonValue::text("cr:RecordSet")));
    e.push(member("@id", JsonValue::text(rs.id.as_str())));
    e.push(member("name", JsonValue::text(rs.name.as_str())));
    e.push(member("field", array(fields)));
    let ghost ev = e@;
    let r = object(e);
    assert(crate::json::members(ev) =~= record_set_json(*rs)->Object_0);
    r
}

impl CroissantDataset {
    /// The dataset as a Croissant JSON-LD document.
    pub fn to_json_ld(&self) -> (r: JsonValue)
        ensures
            r.model() == croissant_json(*self),
    {
        let mut creators: Vec<JsonValue> = Vec::new();
        for i in 0..self.creators.len()
            invariant
                creators@.len() == i,
                forall|j: int| 0 <= j < i ==> #[trigger] creators@[j].model() == person_json(self.creators@[j]),
        {
            creators.push(person_value(&self.creators[i]));
        }
        assert(creators@.map_values(|v: JsonValue| v.model()) =~= self.creators@.map_values(|n: String| person_json(n)));
        let mut files: Vec<JsonValue> = Vec::new();
        for i in 0..self.files.len()
            invariant
                files@.len() == i,
                forall|j: int| 0 <= j < i ==> #[trigger] files@[j].model() == file_json(self.files@[j]),
        {
            files.push(file_value(&self.files[i]));
        }
        assert(files@.map_values(|v: JsonValue| v.model()) =~= self.files@.map_values(|f: FileObject| file_json(f)));
        let mut sets: Vec<JsonValue> = Vec::new();
        for i in 0..self.record_sets.len()
            invariant
                sets@.len() == i,
                forall|j: int| 0 <= j < i ==> #[trigger] sets@[j].model() == record_set_json(self.record_sets@[j]),
        {
            sets.push(record_set_value(&self.record_sets[i]));
        }
        assert(sets@.map_values(|v: JsonValue| v.model()) =~= self.record_sets@.map_values(|rs: RecordSet| record_set_json(rs)));
        let mut e: Vec<(String, JsonValue)> = Vec::new();
        e.push(member("@context", context_value()));
        e.push(member("@type", JsonValue::text("cr:Dataset")));
        e.push(member("@id", JsonValue::text(self.id.as_str())));
        e.push(member("name", JsonValue::text(self.name.as_str())));
        e.push(member("description", JsonValue::text(self.description.as_str())));
        e.push(member("license", JsonValue::text(self.license.as_str())));
        e.push(member("creator", array(creators)));
        e.push(member("keywords", JsonValue::texts(&self.keywords)));
        e.push(member("distribution", array(files)));
        e.push(member("recordSet", array(sets)));
        let ghost ev = e@;
        let r = object(e);
        assert(crate::json::members(ev) =~= croissant_json(*self)->Object_0);
        r
    }
}

} // verus!
