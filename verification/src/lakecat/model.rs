//! Import-plan entries read from a bundle's JSON projections.
use vstd::prelude::*;
use crate::json::{Json, JsonValue};
use crate::text::owned;

verus! {

/// The value at a path of member names, if every member exists.
pub open spec fn path_get(v: Json, path: Seq<Seq<char>>) -> Option<Json>
    decreases path.len(),
{
    if path.len() == 0 {
        Some(v)
    } else {
        match v.get(path[0]) {
            Some(child) => path_get(child, path.drop_first()),
            None => None,
        }
    }
}

/// The string at a path of member names (`["a", "b"]` reads
/// `value["a"]["b"]`).
pub open spec fn string_at_spec(v: Json, path: Seq<Seq<char>>) -> Option<Seq<char>> {
    match path_get(v, path) {
        Some(j) => j.as_str(),
        None => None,
    }
}

/// Reads the string at a path of member names.
pub fn string_at(value: &JsonValue, path: &[&str]) -> (r: Option<String>)
    ensures
        crate::text::opt_view(r) == string_at_spec(value.model(), path@.map_values(|s: &str| s@)),
{
    let ghost p = path@.map_values(|s: &str| s@);
    let mut current = value;
    let mut i: usize = 0;
    assert(p.skip(0) =~= p);
    while i < path.len()
        invariant
            i <= path@.len(),
            p == path@.map_values(|s: &str| s@),
            path_get(value.model(), p) == path_get(current.model(), p.skip(i as int)),
        decreases path.len() - i,
    {
        assert(p.skip(i as int)[0] == path@[i as int]@);
        assert(p.skip(i as int).drop_first() =~= p.skip(i + 1));
        match current.get(path[i]) {
            Some(child) => {
                current = child;
            },
            None => {
                return None;
            },
        }
        i = i + 1;
    }
    assert(p.skip(path@.len() as int) =~= Seq::<Seq<char>>::empty());
    match current.as_str() {
        Some(s) => Some(owned(s)),
        None => None,
    }
}

/// A path of one member name.
fn path1<'a>(a: &'a str) -> (r: Vec<&'a str>)
    ensures
        r@.map_values(|s: &str| s@) == seq![a@],
{
    let mut r: Vec<&str> = Vec::new();
    r.push(a);
    assert(r@.map_values(|s: &str| s@) =~= seq![a@]);
    r
}

/// A path of two member names.
fn path2<'a>(a: &'a str, b: &'a str) -> (r: Vec<&'a str>)
    ensures
        r@.map_values(|s: &str| s@) == seq![a@, b@],
{
    let mut r: Vec<&str> = Vec::new();
    r.push(a);
    r.push(b);
    assert(r@.map_values(|s: &str| s@) =~= seq![a@, b@]);
    r
}

/// A table of an import plan.
#[derive(Debug, Clone, PartialEq, Eq)]
pub struct LakeCatImportTable {
    pub stable_id: String,
    pub croissant_name: Option<String>,
    pub cdif_title: Option<String>,
    pub osi_model: Option<String>,
    pub odrl_policy: Option<String>,
}

/// A view of an import plan.
#[derive(Debug, Clone, PartialEq, Eq)]
pub struct LakeCatImportView {
    pub stable_id: String,
    pub name: String,
    pub view_version: u64,
    pub dialect: String,
    pub osi_model: Option<String>,
}

impl LakeCatImportTable {
    /// The entry of a table projection: its Croissant name, CDIF title, OSI
    /// model name, and ODRL policy (`@id`, else `uid`).
    pub fn from_projection(
        stable_id: &str,
        croissant: &JsonValue,
        cdif: &JsonValue,
        osi: &JsonValue,
        odrl: &JsonValue,
    ) -> (r: LakeCatImportTable)
        ensures
            r.stable_id@ == stable_id@,
            crate::text::opt_view(r.croissant_name) == string_at_spec(croissant.model(), seq!["name"@]),
            crate::text::opt_view(r.cdif_title) == string_at_spec(cdif.model(), seq!["dct:title"@]),
            crate::text::opt_view(r.osi_model) == string_at_spec(
                osi.model(),
                seq!["semantic_model"@, "name"@],
            ),
            crate::text::opt_view(r.odrl_policy) == match string_at_spec(odrl.model(), seq!["@id"@]) {
                Some(s) => Some(s),
                None => string_at_spec(odrl.model(), seq!["uid"@]),
            },
    {
        let croissant_name = string_at(croissant, path1("name").as_slice());
        let cdif_title = string_at(cdif, path1("dct:title").as_slice());
        let osi_model = string_at(osi, path2("semantic_model", "name").as_slice());
        let odrl_policy = match string_at(odrl, path1("@id").as_slice()) {
            Some(s) => Some(s),
            None => string_at(odrl, path1("uid").as_slice()),
        };
        LakeCatImportTable { stable_id: owned(stable_id), croissant_name, cdif_title, osi_model, odrl_policy }
    }
}

impl LakeCatImportView {
    /// The entry of a view projection, with its OSI view name.
    pub fn from_projection(
        stable_id: &str,
        name: &str,
        view_version: u64,
        dialect: &str,
        osi: &JsonValue,
    ) -> (r: LakeCatImportView)
        ensures
            r.stable_id@ == stable_id@,
            r.name@ == name@,
            r.view_version == view_version,
            r.dialect@ == dialect@,
            crate::text::opt_view(r.osi_model) == string_at_spec(osi.model(), seq!["view"@, "name"@]),
    {
        LakeCatImportView {
            stable_id: owned(stable_id),
            name: owned(name),
            view_version,
            dialect: owned(dialect),
            osi_model: string_at(osi, path2("view", "name").as_slice()),
        }
    }
}

} // verus!
