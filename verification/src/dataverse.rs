//! Dataverse datasets and their projection into Croissant metadata.
//!
//! The HTTP client lives with the program; this module holds the client's
//! configuration, the reading of Dataverse's native JSON responses and the
//! Croissant projection.
use vstd::prelude::*;
use crate::croissant::{CroissantDataset, Field, FileObject, RecordSet};
use crate::json::{member_at, models, opt_model, Json, JsonValue};
use crate::text::{
    ascii_lower, ascii_lower_char, cat, cat3, has_prefix, i64_to_string, signed_decimal, starts_with, chain_strings, chars_of, clone_opt, clone_strings,
    is_ascii_alphanumeric, owned, push_char, rsplit_once, rsplit_once_char, trim_end_char,
    trim_end_matches, views,
};

verus! {

/// A dataset as Dataverse describes it.
#[derive(Debug, Clone, PartialEq, Eq)]
pub struct DataverseDataset {
    pub id: String,
    pub persistent_id: String,
    pub title: String,
    pub description: String,
    pub authors: Vec<String>,
    pub subjects: Vec<String>,
    pub keywords: Vec<String>,
    pub license: Option<String>,
    pub landing_page: String,
    pub files: Vec<DataverseFile>,
}

/// A file of a Dataverse dataset.
#[derive(Debug, Clone, PartialEq, Eq)]
pub struct DataverseFile {
    pub id: String,
    pub filename: String,
    pub content_type: Option<String>,
    pub download_url: String,
    pub description: Option<String>,
}

/// Where and how to reach a Dataverse installation.
#[derive(Debug, Clone)]
pub struct DataverseClient {
    base_url: String,
    api_token: Option<String>,
}

impl DataverseClient {
    pub closed spec fn base_url_spec(&self) -> Seq<char> {
        self.base_url@
    }

    pub closed spec fn api_token_spec(&self) -> Option<String> {
        self.api_token
    }

    /// A client for the installation at `base_url`, without trailing slashes.
    pub fn new(base_url: &str) -> (r: DataverseClient)
        ensures
            r.base_url_spec() == trim_end_char(base_url@, '/'),
            r.api_token_spec() is None,
    {
        DataverseClient { base_url: trim_end_matches(base_url, '/'), api_token: None }
    }

    /// The same client, sending `api_token` with each request.
    pub fn with_api_token(self, api_token: &str) -> (r: DataverseClient)
        ensures
            r.base_url_spec() == self.base_url_spec(),
            r.api_token_spec() matches Some(t) && t@ == api_token@,
    {
        DataverseClient { api_token: Some(owned(api_token)), ..self }
    }

    /// The installation's base URL.
    pub fn base_url(&self) -> (r: &str)
        ensures
            r@ == self.base_url_spec(),
    {
        self.base_url.as_str()
    }

    /// The API token sent with each request, if any.
    pub fn api_token(&self) -> (r: Option<&str>)
        ensures
            match r {
                Some(t) => self.api_token_spec() matches Some(s) && s@ == t@,
                None => self.api_token_spec() is None,
            },
    {
        match &self.api_token {
            Some(t) => Some(t.as_str()),
            None => None,
        }
    }
}

/// A character kept in a URL fragment: ASCII letters and digits in lower
/// case, `-` and `_`; anything else becomes `-`.
pub open spec fn fragment_char(c: char) -> char {
    if is_ascii_alphanumeric(c) || c == '-' || c == '_' {
        ascii_lower(c)
    } else {
        '-'
    }
}

/// `safe_fragment`: each character mapped by `fragment_char`.
pub open spec fn safe_fragment_spec(s: Seq<char>) -> Seq<char> {
    s.map_values(|c: char| fragment_char(c))
}

/// A file name without its last extension.
pub open spec fn file_stem(name: Seq<char>) -> Seq<char> {
    match rsplit_once(name, '.') {
        Some(p) => p.0,
        None => name,
    }
}

/// The text of an optional string, or a default.
pub open spec fn or_default(o: Option<String>, d: Seq<char>) -> Seq<char> {
    match o {
        Some(s) => s@,
        None => d,
    }
}

/// The identifier of a dataset's Croissant description.
pub open spec fn croissant_id(landing_page: Seq<char>) -> Seq<char> {
    trim_end_char(landing_page, '/') + "/#dataset"@
}

/// The Croissant file object of a Dataverse file.
pub open spec fn file_object_spec(base: Seq<char>, file: DataverseFile, o: FileObject) -> bool {
    &&& o.id@ == base + "/file/"@ + file.id@
    &&& o.name@ == file.filename@
    &&& o.content_url@ == file.download_url@
    &&& o.encoding_format@ == or_default(file.content_type, "application/octet-stream"@)
}

/// A field with the given name, type, description and semantic type.
pub open spec fn field_is(
    f: Field,
    name: Seq<char>,
    data_type: Seq<char>,
    description: Seq<char>,
    semantic_type: Seq<char>,
) -> bool {
    &&& f.name@ == name
    &&& f.data_type@ == data_type
    &&& f.description@ == description
    &&& f.semantic_type matches Some(t) && t@ == semantic_type
}

/// The four fields of a Dataverse file's record set.
pub open spec fn file_fields_spec(fields: Seq<Field>) -> bool {
    &&& fields.len() == 4
    &&& field_is(
        fields[0],
        "dataset_persistent_id"@,
        "sc:Text"@,
        "Dataverse persistent ID"@,
        "https://schema.org/identifier"@,
    )
    &&& field_is(
        fields[1],
        "file_id"@,
        "sc:Text"@,
        "Dataverse file ID"@,
        "https://schema.org/identifier"@,
    )
    &&& field_is(
        fields[2],
        "file_name"@,
        "sc:Text"@,
        "Dataverse file name"@,
        "https://schema.org/name"@,
    )
    &&& field_is(
        fields[3],
        "download_url"@,
        "sc:URL"@,
        "Dataverse file download URL"@,
        "https://schema.org/contentUrl"@,
    )
}

/// The Croissant record set of a Dataverse file.
pub open spec fn record_set_spec(base: Seq<char>, file: DataverseFile, r: RecordSet) -> bool {
    let stem = file_stem(file.filename@);
    &&& r.id@ == base + "/recordset/"@ + safe_fragment_spec(stem)
    &&& r.name@ == stem
    &&& file_fields_spec(r.fields@)
}

impl DataverseDataset {
    /// The Croissant description of the dataset, as `to_croissant` builds it.
    pub open spec fn croissant_spec(&self, c: CroissantDataset) -> bool {
        let base = croissant_id(self.landing_page@);
        &&& c.id@ == base
        &&& c.name@ == self.title@
        &&& c.description@ == self.description@
        &&& c.license@ == or_default(
            self.license,
            "https://dataverse.org/best-practices/harvard-dataverse-general-terms-use"@,
        )
        &&& views(c.creators@) == if self.authors@.len() == 0 {
            seq!["Dataverse"@]
        } else {
            views(self.authors@)
        }
        &&& views(c.keywords@) == views(self.keywords@) + views(self.subjects@)
        &&& c.files@.len() == self.files@.len()
        &&& forall|i: int|
            0 <= i < self.files@.len() ==> file_object_spec(base, self.files@[i], #[trigger] c.files@[i])
        &&& c.record_sets@.len() == self.files@.len()
        &&& forall|i: int|
            0 <= i < self.files@.len() ==> record_set_spec(
                base,
                self.files@[i],
                #[trigger] c.record_sets@[i],
            )
    }

    /// Projects the dataset into Croissant: one file object and one record
    /// set per file, the record set named after the file's stem.
    pub fn to_croissant(&self) -> (r: CroissantDataset)
        ensures
            self.croissant_spec(r),
    {
        let trimmed = trim_end_matches(self.landing_page.as_str(), '/');
        let dataset_id = cat(trimmed.as_str(), "/#dataset");
        let mut files: Vec<FileObject> = Vec::new();
        let mut record_sets: Vec<RecordSet> = Vec::new();
        for i in 0..self.files.len()
            invariant
                dataset_id@ == croissant_id(self.landing_page@),
                files@.len() == i,
                record_sets@.len() == i,
                forall|j: int|
                    0 <= j < i ==> file_object_spec(dataset_id@, self.files@[j], #[trigger] files@[j]),
                forall|j: int|
                    0 <= j < i ==> record_set_spec(
                        dataset_id@,
                        self.files@[j],
                        #[trigger] record_sets@[j],
                    ),
        {
            let file = &self.files[i];
            files.push(file_object(dataset_id.as_str(), file));
            record_sets.push(file_record_set(dataset_id.as_str(), file));
        }
        let license = match &self.license {
            Some(l) => l.clone(),
            None => owned("https://dataverse.org/best-practices/harvard-dataverse-general-terms-use"),
        };
        let creators = if self.authors.len() == 0 {
            let mut v: Vec<String> = Vec::new();
            v.push(owned("Dataverse"));
            assert(views(v@) =~= seq!["Dataverse"@]);
            v
        } else {
            clone_strings(&self.authors)
        };
        CroissantDataset {
            id: dataset_id,
            name: self.title.clone(),
            description: self.description.clone(),
            license,
            creators,
            files,
            record_sets,
            keywords: chain_strings(&self.keywords, &self.subjects),
        }
    }
}

/// The Croissant file object of a Dataverse file.
fn file_object(base: &str, file: &DataverseFile) -> (r: FileObject)
    ensures
        file_object_spec(base@, *file, r),
{
    FileObject {
        id: cat3(base, "/file/", file.id.as_str()),
        name: file.filename.clone(),
        content_url: file.download_url.clone(),
        encoding_format: match &file.content_type {
            Some(t) => t.clone(),
            None => owned("application/octet-stream"),
        },
    }
}

/// The Croissant record set of a Dataverse file.
fn file_record_set(base: &str, file: &DataverseFile) -> (r: RecordSet)
    ensures
        record_set_spec(base@, *file, r),
{
    let stem = match rsplit_once_char(file.filename.as_str(), '.') {
        Some((s, _)) => s,
        None => file.filename.clone(),
    };
    let fragment = safe_fragment(stem.as_str());
    let mut fields: Vec<Field> = Vec::new();
    fields.push(
        Field::new("dataset_persistent_id", "sc:Text", "Dataverse persistent ID").semantic_type(
            "https://schema.org/identifier",
        ),
    );
    fields.push(
        Field::new("file_id", "sc:Text", "Dataverse file ID").semantic_type(
            "https://schema.org/identifier",
        ),
    );
    fields.push(
        Field::new("file_name", "sc:Text", "Dataverse file name").semantic_type(
            "https://schema.org/name",
        ),
    );
    fields.push(
        Field::new("download_url", "sc:URL", "Dataverse file download URL").semantic_type(
            "https://schema.org/contentUrl",
        ),
    );
    RecordSet { id: cat3(base, "/recordset/", fragment.as_str()), name: stem, fields }
}

/// The first citation field whose `typeName` is `kind`.
pub open spec fn find_field(fields: Seq<Json>, kind: Seq<char>) -> Option<Json>
    decreases fields.len(),
{
    if fields.len() == 0 {
        None
    } else if fields[0].at("typeName"@) == Json::Str(kind) {
        Some(fields[0])
    } else {
        find_field(fields.drop_first(), kind)
    }
}

/// The array under a field's `value`, or nothing.
pub open spec fn value_items(field: Option<Json>) -> Seq<Json> {
    match field {
        Some(f) => match f.at("value"@).as_array() {
            Some(items) => items,
            None => Seq::empty(),
        },
        None => Seq::empty(),
    }
}

/// The strings among the items, in order.
pub open spec fn string_items(items: Seq<Json>) -> Seq<Seq<char>>
    decreases items.len(),
{
    if items.len() == 0 {
        Seq::empty()
    } else {
        let rest = string_items(items.drop_last());
        match items.last().as_str() {
            Some(s) => rest.push(s),
            None => rest,
        }
    }
}

/// The strings at `item[child]["value"]`, in order, where present.
pub open spec fn compound_items(items: Seq<Json>, child: Seq<char>) -> Seq<Seq<char>>
    decreases items.len(),
{
    if items.len() == 0 {
        Seq::empty()
    } else {
        let rest = compound_items(items.drop_last(), child);
        match items.last().at(child).at("value"@).as_str() {
            Some(s) => rest.push(s),
            None => rest,
        }
    }
}

/// `field_string`: the string value of the first field of a type.
pub open spec fn field_string_spec(fields: Seq<Json>, kind: Seq<char>) -> Option<Seq<char>> {
    match find_field(fields, kind) {
        Some(f) => f.at("value"@).as_str(),
        None => None,
    }
}

/// The text of a JSON string, or a default.
pub open spec fn str_or(v: Json, d: Seq<char>) -> Seq<char> {
    match v.as_str() {
        Some(s) => s,
        None => d,
    }
}

/// A base URL without trailing slashes followed by a path.
pub open spec fn under(base: Seq<char>, path: Seq<char>) -> Seq<char> {
    trim_end_char(base, '/') + path
}

/// The file that `parse_file` reads from a Dataverse file entry.
pub open spec fn parse_file_spec(base_url: Seq<char>, file: Json, r: DataverseFile) -> bool {
    let data_file = file.at("dataFile"@);
    let id = match data_file.at("id"@).as_i64() {
        Some(n) => signed_decimal(n),
        None => "unknown"@,
    };
    &&& r.id@ == id
    &&& r.filename@ == str_or(data_file.at("filename"@), "dataverse-file"@)
    &&& opt_view_str(r.content_type) == data_file.at("contentType"@).as_str()
    &&& r.download_url@ == under(base_url, "/api/access/datafile/"@) + id
    &&& opt_view_str(r.description) == file.at("description"@).as_str()
}

/// The text of an optional string.
pub open spec fn opt_view_str(o: Option<String>) -> Option<Seq<char>> {
    match o {
        Some(s) => Some(s@),
        None => None,
    }
}

/// The dataset that `parse_dataset` reads from a native Dataverse response.
pub open spec fn parse_dataset_spec(base_url: Seq<char>, response: Json, r: DataverseDataset) -> bool {
    let data = response.at("data"@);
    let latest = data.at("latestVersion"@);
    let fields = match latest.at("metadataBlocks"@).at("citation"@).at("fields"@).as_array() {
        Some(items) => items,
        None => Seq::empty(),
    };
    let pid = match data.at("persistentId"@).as_str() {
        Some(p) => p,
        None => str_or(latest.at("datasetPersistentId"@), "dataverse:unknown"@),
    };
    let descriptions = compound_items(
        value_items(find_field(fields, "dsDescription"@)),
        "dsDescriptionValue"@,
    );
    let files = match latest.at("files"@).as_array() {
        Some(items) => items,
        None => Seq::empty(),
    };
    &&& r.persistent_id@ == pid
    &&& r.id@ == match data.at("id"@).as_i64() {
        Some(n) => signed_decimal(n),
        None => pid,
    }
    &&& r.title@ == match field_string_spec(fields, "title"@) {
        Some(t) => t,
        None => pid,
    }
    &&& r.description@ == if descriptions.len() > 0 {
        descriptions[0]
    } else {
        "Dataverse dataset"@
    }
    &&& views(r.authors@) == compound_items(value_items(find_field(fields, "author"@)), "authorName"@)
    &&& views(r.subjects@) == string_items(value_items(find_field(fields, "subject"@)))
    &&& views(r.keywords@) == compound_items(
        value_items(find_field(fields, "keyword"@)),
        "keywordValue"@,
    )
    &&& opt_view_str(r.license) == match latest.at("license"@).at("name"@).as_str() {
        Some(l) => Some(l),
        None => latest.at("termsOfUse"@).as_str(),
    }
    &&& r.landing_page@ == if starts_with(pid, "http://"@) || starts_with(pid, "https://"@) {
        pid
    } else {
        under(base_url, "/dataset.xhtml?persistentId="@) + pid
    }
    &&& r.files@.len() == files.len()
    &&& forall|i: int| 0 <= i < files.len() ==> parse_file_spec(base_url, files[i], #[trigger] r.files@[i])
}

/// Index of the first citation field whose `typeName` is `kind`.
fn find_field_index(fields: &Vec<JsonValue>, kind: &str) -> (r: Option<usize>)
    ensures
        match r {
            Some(i) => i < fields@.len() && find_field(models(fields@), kind@) == Some(
                fields@[i as int].model(),
            ),
            None => find_field(models(fields@), kind@) is None,
        },
{
    let ghost ms = models(fields@);
    let mut i: usize = 0;
    assert(ms.subrange(0, ms.len() as int) =~= ms);
    while i < fields.len()
        invariant
            i <= fields@.len(),
            ms == models(fields@),
            find_field(ms, kind@) == find_field(ms.subrange(i as int, ms.len() as int), kind@),
        decreases fields.len() - i,
    {
        let ghost rest = ms.subrange(i as int, ms.len() as int);
        assert(rest[0] == fields@[i as int].model());
        let tn = fields[i].get("typeName");
        let matches = match tn {
            Some(v) => match v.as_str() {
                Some(t) => crate::text::str_eq(t, kind),
                None => false,
            },
            None => false,
        };
        assert(opt_model(tn) == fields@[i as int].model().at("typeName"@));
        if matches {
            return Some(i);
        }
        assert(rest.drop_first() =~= ms.subrange(i + 1, ms.len() as int));
        i = i + 1;
    }
    None
}

/// The array under `field["value"]`, if the field exists and holds one.
fn value_array(fields: &Vec<JsonValue>, index: Option<usize>) -> (r: Option<&Vec<JsonValue>>)
    requires
        index matches Some(i) ==> i < fields@.len(),
    ensures
        match r {
            Some(items) => value_items(
                match index {
                    Some(i) => Some(fields@[i as int].model()),
                    None => None,
                },
            ) == models(items@),
            None => value_items(
                match index {
                    Some(i) => Some(fields@[i as int].model()),
                    None => None,
                },
            ) == Seq::<Json>::empty(),
        },
{
    match index {
        Some(i) => {
            let v = member_at(Some(&fields[i]), "value");
            match v {
                Some(v) => v.as_array(),
                None => None,
            }
        },
        None => None,
    }
}

/// The strings among the items (`filter_map(as_str)`).
fn collect_strings(items: &Vec<JsonValue>) -> (r: Vec<String>)
    ensures
        views(r@) == string_items(models(items@)),
{
    let mut r: Vec<String> = Vec::new();
    for i in 0..items.len()
        invariant
            views(r@) == string_items(models(items@).take(i as int)),
    {
        assert(models(items@).take(i + 1).drop_last() =~= models(items@).take(i as int));
        match items[i].as_str() {
            Some(s) => {
                r.push(owned(s));
                assert(views(r@) =~= string_items(models(items@).take(i + 1)));
            },
            None => {},
        }
    }
    assert(models(items@).take(items@.len() as int) =~= models(items@));
    r
}

/// The strings at `item[child]["value"]`, where present.
fn collect_compound(items: &Vec<JsonValue>, child: &str) -> (r: Vec<String>)
    ensures
        views(r@) == compound_items(models(items@), child@),
{
    let mut r: Vec<String> = Vec::new();
    for i in 0..items.len()
        invariant
            views(r@) == compound_items(models(items@).take(i as int), child@),
    {
        assert(models(items@).take(i + 1).drop_last() =~= models(items@).take(i as int));
        let value = member_at(member_at(Some(&items[i]), child), "value");
        let text = match value {
            Some(v) => v.as_str(),
            None => None,
        };
        match text {
            Some(s) => {
                r.push(owned(s));
                assert(views(r@) =~= compound_items(models(items@).take(i + 1), child@));
            },
            None => {},
        }
    }
    assert(models(items@).take(items@.len() as int) =~= models(items@));
    r
}

/// A string member, or `None`.
fn opt_str(v: Option<&JsonValue>) -> (r: Option<String>)
    ensures
        opt_view_str(r) == opt_model(v).as_str(),
{
    match v {
        Some(v) => match v.as_str() {
            Some(s) => Some(owned(s)),
            None => None,
        },
        None => None,
    }
}

/// Reads a file entry of a Dataverse dataset version.
pub fn parse_file(base_url: &str, file: &JsonValue) -> (r: DataverseFile)
    ensures
        parse_file_spec(base_url@, file.model(), r),
{
    let data_file = member_at(Some(file), "dataFile");
    let id = match member_at(data_file, "id") {
        Some(v) => match v.as_i64() {
            Some(n) => i64_to_string(n),
            None => owned("unknown"),
        },
        None => owned("unknown"),
    };
    let filename = match opt_str(member_at(data_file, "filename")) {
        Some(f) => f,
        None => owned("dataverse-file"),
    };
    let trimmed = trim_end_matches(base_url, '/');
    let download_url = cat3(trimmed.as_str(), "/api/access/datafile/", id.as_str());
    DataverseFile {
        download_url,
        id,
        filename,
        content_type: opt_str(member_at(data_file, "contentType")),
        description: opt_str(member_at(Some(file), "description")),
    }
}

/// Reads a dataset from Dataverse's native `GET /api/datasets/:persistentId`
/// response, with a fallback for every missing member.
pub fn parse_dataset(base_url: &str, response: &JsonValue) -> (r: DataverseDataset)
    ensures
        parse_dataset_spec(base_url@, response.model(), r),
{
    let data = member_at(Some(response), "data");
    let latest = member_at(data, "latestVersion");
    let citation = member_at(member_at(member_at(latest, "metadataBlocks"), "citation"), "fields");
    let empty: Vec<JsonValue> = Vec::new();
    let fields: &Vec<JsonValue> = match citation {
        Some(v) => match v.as_array() {
            Some(items) => items,
            None => &empty,
        },
        None => &empty,
    };
    assert(models(empty@) =~= Seq::<Json>::empty());
    let persistent_id = match opt_str(member_at(data, "persistentId")) {
        Some(p) => p,
        None => match opt_str(member_at(latest, "datasetPersistentId")) {
            Some(p) => p,
            None => owned("dataverse:unknown"),
        },
    };
    let id = match member_at(data, "id") {
        Some(v) => match v.as_i64() {
            Some(n) => i64_to_string(n),
            None => persistent_id.clone(),
        },
        None => persistent_id.clone(),
    };
    let title_index = find_field_index(fields, "title");
    let title = match title_index {
        Some(i) => match opt_str(member_at(Some(&fields[i]), "value")) {
            Some(t) => t,
            None => persistent_id.clone(),
        },
        None => persistent_id.clone(),
    };
    let empty_items: Vec<JsonValue> = Vec::new();
    assert(models(empty_items@) =~= Seq::<Json>::empty());
    let desc_items = match value_array(fields, find_field_index(fields, "dsDescription")) {
        Some(items) => items,
        None => &empty_items,
    };
    let descriptions = collect_compound(desc_items, "dsDescriptionValue");
    let description = if descriptions.len() > 0 {
        descriptions[0].clone()
    } else {
        owned("Dataverse dataset")
    };
    let author_items = match value_array(fields, find_field_index(fields, "author")) {
        Some(items) => items,
        None => &empty_items,
    };
    let authors = collect_compound(author_items, "authorName");
    let subject_items = match value_array(fields, find_field_index(fields, "subject")) {
        Some(items) => items,
        None => &empty_items,
    };
    let subjects = collect_strings(subject_items);
    let keyword_items = match value_array(fields, find_field_index(fields, "keyword")) {
        Some(items) => items,
        None => &empty_items,
    };
    let keywords = collect_compound(keyword_items, "keywordValue");
    let license = match opt_str(member_at(member_at(latest, "license"), "name")) {
        Some(l) => Some(l),
        None => opt_str(member_at(latest, "termsOfUse")),
    };
    let landing_page = if has_prefix(persistent_id.as_str(), "http://") || has_prefix(
        persistent_id.as_str(),
        "https://",
    ) {
        persistent_id.clone()
    } else {
        let trimmed = trim_end_matches(base_url, '/');
        cat3(trimmed.as_str(), "/dataset.xhtml?persistentId=", persistent_id.as_str())
    };
    let file_items = match member_at(latest, "files") {
        Some(v) => match v.as_array() {
            Some(items) => items,
            None => &empty_items,
        },
        None => &empty_items,
    };
    let mut files: Vec<DataverseFile> = Vec::new();
    for i in 0..file_items.len()
        invariant
            files@.len() == i,
            forall|j: int|
                0 <= j < i ==> parse_file_spec(base_url@, file_items@[j].model(), #[trigger] files@[j]),
    {
        files.push(parse_file(base_url, &file_items[i]));
    }
    proof {
        let ms = models(file_items@);
        assert forall|j: int| 0 <= j < ms.len() implies ms[j] == file_items@[j].model() by {}
    }
    DataverseDataset {
        id,
        persistent_id,
        title,
        description,
        authors,
        subjects,
        keywords,
        license,
        landing_page,
        files,
    }
}

/// A file with the given fields.
pub open spec fn file_is(
    f: DataverseFile,
    id: Seq<char>,
    filename: Seq<char>,
    content_type: Seq<char>,
    download_url: Seq<char>,
    description: Seq<char>,
) -> bool {
    &&& f.id@ == id
    &&& f.filename@ == filename
    &&& f.content_type matches Some(t) && t@ == content_type
    &&& f.download_url@ == download_url
    &&& f.description matches Some(d) && d@ == description
}

/// A dataset with the given fields and a single file.
pub open spec fn dataset_is(
    d: DataverseDataset,
    id: Seq<char>,
    persistent_id: Seq<char>,
    title: Seq<char>,
    description: Seq<char>,
    authors: Seq<Seq<char>>,
    subjects: Seq<Seq<char>>,
    keywords: Seq<Seq<char>>,
    license: Seq<char>,
    landing_page: Seq<char>,
) -> bool {
    &&& d.id@ == id
    &&& d.persistent_id@ == persistent_id
    &&& d.title@ == title
    &&& d.description@ == description
    &&& views(d.authors@) == authors
    &&& views(d.subjects@) == subjects
    &&& views(d.keywords@) == keywords
    &&& d.license matches Some(l) && l@ == license
    &&& d.landing_page@ == landing_page
    &&& d.files@.len() == 1
}

/// A list of one string.
fn strings1(a: &str) -> (r: Vec<String>)
    ensures
        views(r@) == seq![a@],
{
    let mut r: Vec<String> = Vec::new();
    r.push(owned(a));
    assert(views(r@) =~= seq![a@]);
    r
}

/// A list of two strings.
fn strings2(a: &str, b: &str) -> (r: Vec<String>)
    ensures
        views(r@) == seq![a@, b@],
{
    let mut r: Vec<String> = Vec::new();
    r.push(owned(a));
    r.push(owned(b));
    assert(views(r@) =~= seq![a@, b@]);
    r
}

/// A list of three strings.
fn strings3(a: &str, b: &str, c: &str) -> (r: Vec<String>)
    ensures
        views(r@) == seq![a@, b@, c@],
{
    let mut r: Vec<String> = Vec::new();
    r.push(owned(a));
    r.push(owned(b));
    r.push(owned(c));
    assert(views(r@) =~= seq![a@, b@, c@]);
    r
}

/// Two Dataverse-shaped sample datasets for demonstrations and tests.
pub fn sample_datasets() -> (r: Vec<DataverseDataset>)
    ensures
        r@.len() == 2,
        dataset_is(
            r@[0],
            "1001"@,
            "doi:10.7910/DVN/QGDEMO1"@,
            "Bay Area building energy observations"@,
            "Sample Dataverse-shaped energy observations for QueryGraph integration testing."@,
            seq!["QueryGraph Demo Lab"@],
            seq!["Engineering"@, "Computer and Information Science"@],
            seq!["energy"@, "buildings"@, "sensors"@],
            "CC0 1.0"@,
            "https://demo.dataverse.org/dataset.xhtml?persistentId=doi:10.7910/DVN/QGDEMO1"@,
        ),
        file_is(
            r@[0].files@[0],
            "501"@,
            "building_energy.csv"@,
            "text/csv"@,
            "https://demo.dataverse.org/api/access/datafile/501"@,
            "Hourly energy observations."@,
        ),
        dataset_is(
            r@[1],
            "1002"@,
            "doi:10.7910/DVN/QGDEMO2"@,
            "Enterprise data access survey"@,
            "Sample Dataverse-shaped survey metadata for governed agent access."@,
            seq!["QueryGraph Governance Lab"@],
            seq!["Social Sciences"@],
            seq!["access control"@, "governance"@, "survey"@],
            "CC BY 4.0"@,
            "https://demo.dataverse.org/dataset.xhtml?persistentId=doi:10.7910/DVN/QGDEMO2"@,
        ),
        file_is(
            r@[1].files@[0],
            "502"@,
            "access_survey.tab"@,
            "text/tab-separated-values"@,
            "https://demo.dataverse.org/api/access/datafile/502"@,
            "Survey responses."@,
        ),
{
    let mut files1: Vec<DataverseFile> = Vec::new();
    files1.push(
        DataverseFile {
            id: owned("501"),
            filename: owned("building_energy.csv"),
            content_type: Some(owned("text/csv")),
            download_url: owned("https://demo.dataverse.org/api/access/datafile/501"),
            description: Some(owned("Hourly energy observations.")),
        },
    );
    let first = DataverseDataset {
        id: owned("1001"),
        persistent_id: owned("doi:10.7910/DVN/QGDEMO1"),
        title: owned("Bay Area building energy observations"),
        description: owned(
            "Sample Dataverse-shaped energy observations for QueryGraph integration testing.",
        ),
        authors: strings1("QueryGraph Demo Lab"),
        subjects: strings2("Engineering", "Computer and Information Science"),
        keywords: strings3("energy", "buildings", "sensors"),
        license: Some(owned("CC0 1.0")),
        landing_page: owned(
            "https://demo.dataverse.org/dataset.xhtml?persistentId=doi:10.7910/DVN/QGDEMO1",
        ),
        files: files1,
    };
    let mut files2: Vec<DataverseFile> = Vec::new();
    files2.push(
        DataverseFile {
            id: owned("502"),
            filename: owned("access_survey.tab"),
            content_type: Some(owned("text/tab-separated-values")),
            download_url: owned("https://demo.dataverse.org/api/access/datafile/502"),
            description: Some(owned("Survey responses.")),
        },
    );
    let second = DataverseDataset {
        id: owned("1002"),
        persistent_id: owned("doi:10.7910/DVN/QGDEMO2"),
        title: owned("Enterprise data access survey"),
        description: owned("Sample Dataverse-shaped survey metadata for governed agent access."),
        authors: strings1("QueryGraph Governance Lab"),
        subjects: strings1("Social Sciences"),
        keywords: strings3("access control", "governance", "survey"),
        license: Some(owned("CC BY 4.0")),
        landing_page: owned(
            "https://demo.dataverse.org/dataset.xhtml?persistentId=doi:10.7910/DVN/QGDEMO2",
        ),
        files: files2,
    };
    let mut r: Vec<DataverseDataset> = Vec::new();
    r.push(first);
    r.push(second);
    r
}

/// Maps a text to a URL fragment: ASCII letters and digits in lower case,
/// `-` and `_` kept, anything else replaced by `-`.
pub fn safe_fragment(value: &str) -> (r: String)
    ensures
        r@ == safe_fragment_spec(value@),
{
    let chars = chars_of(value);
    let mut out = String::new();
    for i in 0..chars.len()
        invariant
            chars@ == value@,
            out@ == safe_fragment_spec(value@.take(i as int)),
    {
        let c = chars[i];
        let keep = ('a' <= c && c <= 'z') || ('A' <= c && c <= 'Z') || ('0' <= c && c <= '9') || c
            == '-' || c == '_';
        if keep {
            push_char(&mut out, ascii_lower_char(c));
        } else {
            push_char(&mut out, '-');
        }
        assert(safe_fragment_spec(value@.take(i + 1)) =~= safe_fragment_spec(value@.take(i as int)).push(
            fragment_char(c),
        ));
    }
    assert(value@.take(value@.len() as int) =~= value@);
    out
}

/// The persistent ID a search hit names: its `global_id`, else its
/// `persistentUrl`, where one is a string.
pub open spec fn hit_id(item: Json) -> Option<Seq<char>> {
    match item.at("global_id"@).as_str() {
        Some(s) => Some(s),
        None => item.at("persistentUrl"@).as_str(),
    }
}

/// The persistent IDs named by hits, in order, skipping hits that name
/// none.
pub open spec fn hit_ids(items: Seq<Json>) -> Seq<Seq<char>>
    decreases items.len(),
{
    if items.len() == 0 {
        Seq::empty()
    } else {
        let rest = hit_ids(items.drop_last());
        match hit_id(items.last()) {
            Some(s) => rest.push(s),
            None => rest,
        }
    }
}

/// The hits of a search response: the items of `data.items`, or none
/// where that is not an array.
pub open spec fn search_items(response: Json) -> Seq<Json> {
    match response.at("data"@).at("items"@) {
        Json::Array(items) => items,
        _ => Seq::empty(),
    }
}

/// The persistent IDs of the datasets a Dataverse search response lists,
/// for the client to fetch one by one.
pub fn search_hit_ids(response: &JsonValue) -> (r: Vec<String>)
    ensures
        views(r@) == hit_ids(search_items(response.model())),
{
    let items = match member_at(member_at(Some(response), "data"), "items") {
        Some(JsonValue::Array(items)) => items,
        _ => {
            let r: Vec<String> = Vec::new();
            assert(views(r@) =~= Seq::<Seq<char>>::empty());
            return r;
        },
    };
    let ghost ms = search_items(response.model());
    proof {
        crate::json::lemma_array_model(*items);
    }
    assert(ms =~= models(items@));
    let mut r: Vec<String> = Vec::new();
    for i in 0..items.len()
        invariant
            ms == models(items@),
            views(r@) == hit_ids(ms.take(i as int)),
    {
        let item = &items[i];
        assert(ms.take(i + 1).drop_last() =~= ms.take(i as int));
        assert(ms.take(i + 1).last() == item.model());
        let id = match member_at(Some(item), "global_id") {
            Some(v) => match v.as_str() {
                Some(s) => Some(owned(s)),
                None => None,
            },
            None => None,
        };
        let id = match id {
            Some(s) => Some(s),
            None => match member_at(Some(item), "persistentUrl") {
                Some(v) => match v.as_str() {
                    Some(s) => Some(owned(s)),
                    None => None,
                },
                None => None,
            },
        };
        let ghost before = r@;
        match id {
            Some(s) => {
                r.push(s);
                assert(views(r@) =~= views(before).push(r@.last()@));
            },
            None => {},
        }
    }
    assert(ms.take(ms.len() as int) =~= ms);
    r
}

} // verus!
