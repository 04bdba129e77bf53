//! CODATA CDIF descriptions of datasets, projected from Croissant.
use vstd::prelude::*;
use crate::croissant::{CroissantDataset, Field, RecordSet};
use crate::json::{array, member, object, opt_str, Json, JsonValue};
use crate::text::{cat3, clone_opt, clone_strings, owned, views};

verus! {

/// The CDIF profiles a description can conform to.
#[derive(Debug, Clone, Copy, PartialEq, Eq)]
pub enum CdifProfile {
    Discovery,
    Manifest,
    DataDescription,
    DataAccess,
    AccessRights,
    ControlledVocabularies,
    DataIntegration,
    Universals,
    Provenance,
}

/// The IRI of a profile.
pub open spec fn profile_iri(p: CdifProfile) -> Seq<char> {
    match p {
        CdifProfile::Discovery => "https://cdif.codata.org/profile/discovery"@,
        CdifProfile::Manifest => "https://cdif.codata.org/profile/manifest"@,
        CdifProfile::DataDescription => "https://cdif.codata.org/profile/data-description"@,
        CdifProfile::DataAccess => "https://cdif.codata.org/profile/data-access"@,
        CdifProfile::AccessRights => "https://cdif.codata.org/profile/access-rights"@,
        CdifProfile::ControlledVocabularies => "https://cdif.codata.org/profile/controlled-vocabularies"@,
        CdifProfile::DataIntegration => "https://cdif.codata.org/profile/data-integration"@,
        CdifProfile::Universals => "https://cdif.codata.org/profile/universals"@,
        CdifProfile::Provenance => "https://cdif.codata.org/profile/provenance"@,
    }
}

impl CdifProfile {
    /// The IRI of the profile.
    pub fn iri(self) -> (r: &'static str)
        ensures
            r@ == profile_iri(self),
    {
        match self {
            CdifProfile::Discovery => "https://cdif.codata.org/profile/discovery",
            CdifProfile::Manifest => "https://cdif.codata.org/profile/manifest",
            CdifProfile::DataDescription => "https://cdif.codata.org/profile/data-description",
            CdifProfile::DataAccess => "https://cdif.codata.org/profile/data-access",
            CdifProfile::AccessRights => "https://cdif.codata.org/profile/access-rights",
            CdifProfile::ControlledVocabularies => "https://cdif.codata.org/profile/controlled-vocabularies",
            CdifProfile::DataIntegration => "https://cdif.codata.org/profile/data-integration",
            CdifProfile::Universals => "https://cdif.codata.org/profile/universals",
            CdifProfile::Provenance => "https://cdif.codata.org/profile/provenance",
        }
    }
}

/// A variable of a dataset.
#[derive(Debug, Clone, PartialEq, Eq)]
pub struct CdifDataElement {
    pub id: String,
    pub name: String,
    pub data_type: String,
    pub description: String,
    pub semantic_type: Option<String>,
    pub record_set: String,
}

/// A distribution of a dataset.
#[derive(Debug, Clone, PartialEq, Eq)]
pub struct CdifDistribution {
    pub id: String,
    pub name: String,
    pub content_url: String,
    pub encoding_format: String,
}

/// The access rights of a dataset.
pub struct CdifAccessRights {
    pub policy_id: Option<String>,
    pub license: String,
    pub rights_statement: Option<String>,
    pub odrl_policy: Option<JsonValue>,
}

/// A CDIF description of a dataset.
pub struct CdifResource {
    pub dataset_id: String,
    pub title: String,
    pub description: String,
    pub profiles: Vec<CdifProfile>,
    pub landing_page: String,
    pub access_service: String,
    pub distributions: Vec<CdifDistribution>,
    pub data_elements: Vec<CdifDataElement>,
    pub access_rights: Option<CdifAccessRights>,
    pub temporal_coverage: Option<String>,
    pub spatial_coverage: Option<String>,
    pub units: Vec<String>,
    pub vocabularies: Vec<String>,
    pub keywords: Vec<String>,
}

/// The data elements of record sets, record set by record set, field by
/// field.
pub open spec fn element_pairs(record_sets: Seq<RecordSet>) -> Seq<(RecordSet, Field)>
    decreases record_sets.len(),
{
    if record_sets.len() == 0 {
        Seq::empty()
    } else {
        let last = record_sets.last();
        element_pairs(record_sets.drop_last()) + last.fields@.map_values(|f: Field| (last, f))
    }
}

/// The data element of a field of a record set.
pub open spec fn element_spec(rs: RecordSet, f: Field, e: CdifDataElement) -> bool {
    &&& e.id@ == rs.id@ + "/field/"@ + f.name@
    &&& e.name@ == f.name@
    &&& e.data_type@ == f.data_type@
    &&& e.description@ == f.description@
    &&& crate::text::opt_view(e.semantic_type) == crate::text::opt_view(f.semantic_type)
    &&& e.record_set@ == rs.id@
}

/// The semantic types of the fields, in order, where present.
pub open spec fn vocabulary(pairs: Seq<(RecordSet, Field)>) -> Seq<Seq<char>>
    decreases pairs.len(),
{
    if pairs.len() == 0 {
        Seq::empty()
    } else {
        let rest = vocabulary(pairs.drop_last());
        match pairs.last().1.semantic_type {
            Some(t) => rest.push(t@),
            None => rest,
        }
    }
}

/// The profiles of a projected description: all but provenance.
pub open spec fn projected_profiles() -> Seq<CdifProfile> {
    seq![
        CdifProfile::Discovery,
        CdifProfile::Manifest,
        CdifProfile::DataDescription,
        CdifProfile::DataAccess,
        CdifProfile::AccessRights,
        CdifProfile::ControlledVocabularies,
        CdifProfile::DataIntegration,
        CdifProfile::Universals,
    ]
}

/// The rights statement of a projected description.
pub open spec fn rights_statement() -> Seq<char> {
    "Access and usage must satisfy the attached ODRL/TypeSec policy before agent use."@
}

impl CdifResource {
    /// Projects a Croissant description into CDIF: its files as
    /// distributions, every field of every record set as a data element,
    /// the fields' semantic types as controlled vocabulary, and access
    /// rights under the dataset's license awaiting an ODRL policy.
    pub fn from_croissant(dataset: &CroissantDataset, landing_page: &str, access_service: &str) -> (r:
        CdifResource)
        ensures
            r.dataset_id@ == dataset.id@,
            r.title@ == dataset.name@,
            r.description@ == dataset.description@,
            r.profiles@ == projected_profiles(),
            r.landing_page@ == landing_page@,
            r.access_service@ == access_service@,
            r.distributions@.len() == dataset.files@.len(),
            forall|i: int|
                0 <= i < dataset.files@.len() ==> {
                    let d = #[trigger] r.distributions@[i];
                    let f = dataset.files@[i];
                    &&& d.id == f.id
                    &&& d.name == f.name
                    &&& d.content_url == f.content_url
                    &&& d.encoding_format == f.encoding_format
                },
            r.data_elements@.len() == element_pairs(dataset.record_sets@).len(),
            forall|i: int|
                0 <= i < r.data_elements@.len() ==> element_spec(
                    element_pairs(dataset.record_sets@)[i].0,
                    element_pairs(dataset.record_sets@)[i].1,
                    #[trigger] r.data_elements@[i],
                ),
            r.access_rights matches Some(a) && (a.policy_id is None && a.license@ == dataset.license@
                && (a.rights_statement matches Some(s) && s@ == rights_statement()) && a.odrl_policy is None),
            r.temporal_coverage is None,
            r.spatial_coverage is None,
            r.units@.len() == 0,
            views(r.vocabularies@) == vocabulary(element_pairs(dataset.record_sets@)),
            views(r.keywords@) == views(dataset.keywords@),
    {
        let mut distributions: Vec<CdifDistribution> = Vec::new();
        for i in 0..dataset.files.len()
            invariant
                distributions@.len() == i,
                forall|j: int|
                    0 <= j < i ==> {
                        let d = #[trigger] distributions@[j];
                        let f = dataset.files@[j];
                        &&& d.id == f.id
                        &&& d.name == f.name
                        &&& d.content_url == f.content_url
                        &&& d.encoding_format == f.encoding_format
                    },
        {
            let f = &dataset.files[i];
            distributions.push(
                CdifDistribution {
                    id: f.id.clone(),
                    name: f.name.clone(),
                    content_url: f.content_url.clone(),
                    encoding_format: f.encoding_format.clone(),
                },
            );
        }
        let mut elements: Vec<CdifDataElement> = Vec::new();
        let mut vocabularies: Vec<String> = Vec::new();
        let ghost rss = dataset.record_sets@;
        for i in 0..dataset.record_sets.len()
            invariant
                rss == dataset.record_sets@,
                elements@.len() == element_pairs(rss.take(i as int)).len(),
                forall|k: int|
                    0 <= k < elements@.len() ==> element_spec(
                        element_pairs(rss.take(i as int))[k].0,
                        element_pairs(rss.take(i as int))[k].1,
                        #[trigger] elements@[k],
                    ),
                views(vocabularies@) == vocabulary(element_pairs(rss.take(i as int))),
        {
            let rs = &dataset.record_sets[i];
            let ghost before = element_pairs(rss.take(i as int));
            let ghost added = rs.fields@.map_values(|f: Field| (*rs, f));
            assert(rss.take(i + 1).drop_last() =~= rss.take(i as int));
            assert(rss.take(i + 1).last() == *rs);
            assert(element_pairs(rss.take(i + 1)) == before + added);
            for j in 0..rs.fields.len()
                invariant
                    elements@.len() == before.len() + j,
                    added == rs.fields@.map_values(|f: Field| (*rs, f)),
                    forall|k: int|
                        0 <= k < elements@.len() ==> element_spec(
                            (before + added)[k].0,
                            (before + added)[k].1,
                            #[trigger] elements@[k],
                        ),
                    views(vocabularies@) == vocabulary(before + added.take(j as int)),
            {
                let f = &rs.fields[j];
                elements.push(
                    CdifDataElement {
                        id: cat3(rs.id.as_str(), "/field/", f.name.as_str()),
                        name: f.name.clone(),
                        data_type: f.data_type.clone(),
                        description: f.description.clone(),
                        semantic_type: clone_opt(&f.semantic_type),
                        record_set: rs.id.clone(),
                    },
                );
                let ghost bt = before + added.take(j as int);
                assert((before + added.take(j + 1)).drop_last() =~= bt);
                assert((before + added.take(j + 1)).last() == (*rs, *f));
                match &f.semantic_type {
                    Some(t) => {
                        let ghost vb = vocabularies@;
                        vocabularies.push(t.clone());
                        assert(views(vocabularies@) =~= views(vb).push(t@));
                    },
                    None => {},
                }
                assert((before + added)[before.len() + j] == (*rs, *f));
            }
            assert(added.take(rs.fields@.len() as int) =~= added);
        }
        assert(rss.take(rss.len() as int) =~= rss);
        let mut profiles: Vec<CdifProfile> = Vec::new();
        profiles.push(CdifProfile::Discovery);
        profiles.push(CdifProfile::Manifest);
        profiles.push(CdifProfile::DataDescription);
        profiles.push(CdifProfile::DataAccess);
        profiles.push(CdifProfile::AccessRights);
        profiles.push(CdifProfile::ControlledVocabularies);
        profiles.push(CdifProfile::DataIntegration);
        profiles.push(CdifProfile::Universals);
        assert(profiles@ =~= projected_profiles());
        let keywords = clone_strings(&dataset.keywords);
        CdifResource {
            dataset_id: dataset.id.clone(),
            title: dataset.name.clone(),
            description: dataset.description.clone(),
            profiles,
            landing_page: owned(landing_page),
            access_service: owned(access_service),
            distributions,
            data_elements: elements,
            access_rights: Some(
                CdifAccessRights {
                    policy_id: None,
                    license: dataset.license.clone(),
                    rights_statement: Some(
                        owned(
                            "Access and usage must satisfy the attached ODRL/TypeSec policy before agent use.",
                        ),
                    ),
                    odrl_policy: None,
                },
            ),
            temporal_coverage: None,
            spatial_coverage: None,
            units: Vec::new(),
            vocabularies,
            keywords,
        }
    }

    /// The same description with an ODRL policy attached to its access
    /// rights; a description without access rights is unchanged.
    pub fn with_odrl_policy(self, policy_id: &str, policy: JsonValue) -> (r: CdifResource)
        ensures
            r.dataset_id == self.dataset_id,
            r.title == self.title,
            r.description == self.description,
            r.profiles == self.profiles,
            r.landing_page == self.landing_page,
            r.access_service == self.access_service,
            r.temporal_coverage == self.temporal_coverage,
            r.spatial_coverage == self.spatial_coverage,
            r.units == self.units,
            r.distributions == self.distributions,
            r.data_elements == self.data_elements,
            r.vocabularies == self.vocabularies,
            r.keywords == self.keywords,
            match self.access_rights {
                Some(a) => r.access_rights matches Some(b) && (b.license == a.license && b.rights_statement
                    == a.rights_statement && (b.policy_id matches Some(p) && p@ == policy_id@)
                    && b.odrl_policy == Some(policy)),
                None => r.access_rights is None,
            },
    {
        let mut r = self;
        r.access_rights = match r.access_rights {
            Some(a) => Some(
                CdifAccessRights {
                    policy_id: Some(owned(policy_id)),
                    odrl_policy: Some(policy),
                    ..a
                },
            ),
            None => None,
        };
        r
    }
}

/// The JSON-LD context of a CDIF document.
pub open spec fn cdif_context() -> Json {
    Json::Object(
        seq![
            ("cdif"@, Json::Str("https://cdif.codata.org/"@)),
            ("dcat"@, Json::Str("http://www.w3.org/ns/dcat#"@)),
            ("dct"@, Json::Str("http://purl.org/dc/terms/"@)),
            ("odrl"@, Json::Str("http://www.w3.org/ns/odrl/2/"@)),
        ],
    )
}

/// A distribution as a DCAT distribution.
pub open spec fn distribution_json(d: CdifDistribution) -> Json {
    Json::Object(
        seq![
            ("@type"@, Json::Str("dcat:Distribution"@)),
            ("@id"@, Json::Str(d.id@)),
            ("dct:title"@, Json::Str(d.name@)),
            ("dcat:downloadURL"@, Json::Str(d.content_url@)),
            ("dcat:mediaType"@, Json::Str(d.encoding_format@)),
        ],
    )
}

/// A data element as a CDIF data element.
pub open spec fn element_json(e: CdifDataElement) -> Json {
    Json::Object(
        seq![
            ("@type"@, Json::Str("cdif:DataElement"@)),
            ("@id"@, Json::Str(e.id@)),
            ("dct:title"@, Json::Str(e.name@)),
            ("dct:description"@, Json::Str(e.description@)),
            ("cdif:dataType"@, Json::Str(e.data_type@)),
            ("cdif:semanticType"@, opt_str(e.semantic_type)),
            ("cdif:recordSet"@, Json::Str(e.record_set@)),
        ],
    )
}

/// Access rights as a Dublin Core rights statement.
pub open spec fn rights_json(a: CdifAccessRights) -> Json {
    Json::Object(
        seq![
            ("@type"@, Json::Str("dct:RightsStatement"@)),
            ("@id"@, opt_str(a.policy_id)),
            ("dct:license"@, Json::Str(a.license@)),
            ("dct:description"@, opt_str(a.rights_statement)),
            ("odrl:policy"@, match a.odrl_policy {
                Some(p) => p.model(),
                None => Json::Null,
            }),
        ],
    )
}

/// Strings as a JSON array.
pub open spec fn str_array(v: Seq<String>) -> Json {
    Json::Array(v.map_values(|s: String| Json::Str(s@)))
}

/// A description as a CDIF JSON-LD document.
pub open spec fn cdif_json(r: CdifResource) -> Json {
    Json::Object(
        seq![
            ("@context"@, cdif_context()),
            ("@type"@, Json::Str("dcat:Dataset"@)),
            ("@id"@, Json::Str(r.dataset_id@)),
            ("dct:title"@, Json::Str(r.title@)),
            ("dct:description"@, Json::Str(r.description@)),
            ("cdif:profile"@, Json::Array(r.profiles@.map_values(|p: CdifProfile| Json::Str(profile_iri(p))))),
            ("dcat:landingPage"@, Json::Str(r.landing_page@)),
            ("dcat:accessService"@, Json::Object(
                seq![
                    ("@type"@, Json::Str("dcat:DataService"@)),
                    ("endpointURL"@, Json::Str(r.access_service@)),
                ],
            )),
            ("dcat:distribution"@, Json::Array(r.distributions@.map_values(|d: CdifDistribution| distribution_json(d)))),
            ("cdif:dataElement"@, Json::Array(r.data_elements@.map_values(|e: CdifDataElement| element_json(e)))),
            ("dct:accessRights"@, match r.access_rights {
                Some(a) => rights_json(a),
                None => Json::Null,
            }),
            ("dct:temporal"@, opt_str(r.temporal_coverage)),
            ("dct:spatial"@, opt_str(r.spatial_coverage)),
            ("cdif:unit"@, str_array(r.units@)),
            ("cdif:controlledVocabulary"@, str_array(r.vocabularies@)),
            ("dcat:keyword"@, str_array(r.keywords@)),
        ],
    )
}

fn distribution_value(d: &CdifDistribution) -> (r: JsonValue)
    ensures
        r.model() == distribution_json(*d),
{
    let mut e: Vec<(String, JsonValue)> = Vec::new();
    e.push(member("@type", JsonValue::text("dcat:Distribution")));
    e.push(member("@id", JsonValue::text(d.id.as_str())));
    e.push(member("dct:title", JsonValue::text(d.name.as_str())));
    e.push(member("dcat:downloadURL", JsonValue::text(d.content_url.as_str())));
    e.push(member("dcat:mediaType", JsonValue::text(d.encoding_format.as_str())));
    let ghost ev = e@;
    let r = object(e);
    assert(crate::json::members(ev) =~= distribution_json(*d)->Object_0);
    r
}

fn element_value(d: &CdifDataElement) -> (r: JsonValue)
    ensures
        r.model() == element_json(*d),
{
    let mut e: Vec<(String, JsonValue)> = Vec::new();
    e.push(member("@type", JsonValue::text("cdif:DataElement")));
    e.push(member("@id", JsonValue::text(d.id.as_str())));
    e.push(member("dct:title", JsonValue::text(d.name.as_str())));
    e.push(member("dct:description", JsonValue::text(d.description.as_str())));
    e.push(member("cdif:dataType", JsonValue::text(d.data_type.as_str())));
    e.push(member("cdif:semanticType", JsonValue::opt_text(&d.semantic_type)));
    e.push(member("cdif:recordSet", JsonValue::text(d.record_set.as_str())));
    let ghost ev = e@;
    let r = object(e);
    assert(crate::json::members(ev) =~= element_json(*d)->Object_0);
    r
}

fn rights_value(a: &CdifAccessRights) -> (r: JsonValue)
    ensures
        r.model() == rights_json(*a),
{
    let policy = match &a.odrl_policy {
        Some(p) => p.deep_clone(),
        None => JsonValue::Null,
    };
    let mut e: Vec<(String, JsonValue)> = Vec::new();
    e.push(member("@type", JsonValue::text("dct:RightsStatement")));
    e.push(member("@id", JsonValue::opt_text(&a.policy_id)));
    e.push(member("dct:license", JsonValue::text(a.license.as_str())));
    e.push(member("dct:description", JsonValue::opt_text(&a.rights_statement)));
    e.push(member("odrl:policy", policy));
    let ghost ev = e@;
    let r = object(e);
    assert(crate::json::members(ev) =~= rights_json(*a)->Object_0);
    r
}

fn context_value() -> (r: JsonValue)
    ensures
        r.model() == cdif_context(),
{
    let mut e: Vec<(String, JsonValue)> = Vec::new();
    e.push(member("cdif", JsonValue::text("https://cdif.codata.org/")));
    e.push(member("dcat", JsonValue::text("http://www.w3.org/ns/dcat#")));
    e.push(member("dct", JsonValue::text("http://purl.org/dc/terms/")));
    e.push(member("odrl", JsonValue::text("http://www.w3.org/ns/odrl/2/")));
    let ghost ev = e@;
    let r = object(e);
    assert(crate::json::members(ev) =~= cdif_context()->Object_0);
    r
}

impl CdifResource {
    /// The description as a CDIF JSON-LD document.
    pub fn to_json_ld(&self) -> (r: JsonValue)
        ensures
            r.model() == cdif_json(*self),
    {
        let mut profiles: Vec<JsonValue> = Vec::new();
        for i in 0..self.profiles.len()
            invariant
                profiles@.len() == i,
                forall|j: int| 0 <= j < i ==> #[trigger] profiles@[j].model() == Json::Str(profile_iri(self.profiles@[j])),
        {
            profiles.push(JsonValue::text(self.profiles[i].iri()));
        }
        assert(profiles@.map_values(|v: JsonValue| v.model()) =~= self.profiles@.map_values(|p: CdifProfile| Json::Str(profile_iri(p))));
        let mut dists: Vec<JsonValue> = Vec::new();
        for i in 0..self.distributions.len()
            invariant
                dists@.len() == i,
                forall|j: int| 0 <= j < i ==> #[trigger] dists@[j].model() == distribution_json(self.distributions@[j]),
        {
            dists.push(distribution_value(&self.distributions[i]));
        }
        assert(dists@.map_values(|v: JsonValue| v.model()) =~= self.distributions@.map_values(|d: CdifDistribution| distribution_json(d)));
        let mut elements: Vec<JsonValue> = Vec::new();
        for i in 0..self.data_elements.len()
            invariant
                elements@.len() == i,
                forall|j: int| 0 <= j < i ==> #[trigger] elements@[j].model() == element_json(self.data_elements@[j]),
        {
            elements.push(element_value(&self.data_elements[i]));
        }
        assert(elements@.map_values(|v: JsonValue| v.model()) =~= self.data_elements@.map_values(|e: CdifDataElement| element_json(e)));
        let rights = match &self.access_rights {
            Some(a) => rights_value(a),
            None => JsonValue::Null,
        };
        let mut svc: Vec<(String, JsonValue)> = Vec::new();
        svc.push(member("@type", JsonValue::text("dcat:DataService")));
        svc.push(member("endpointURL", JsonValue::text(self.access_service.as_str())));
        let ghost sv = svc@;
        let svc = object(svc);
        assert(crate::json::members(sv) =~= seq![
            ("@type"@, Json::Str("dcat:DataService"@)),
            ("endpointURL"@, Json::Str(self.access_service@)),
        ]);
        let mut e: Vec<(String, JsonValue)> = Vec::new();
        e.push(member("@context", context_value()));
        e.push(member("@type", JsonValue::text("dcat:Dataset")));
        e.push(member("@id", JsonValue::text(self.dataset_id.as_str())));
        e.push(member("dct:title", JsonValue::text(self.title.as_str())));
        e.push(member("dct:description", JsonValue::text(self.description.as_str())));
        e.push(member("cdif:profile", array(profiles)));
        e.push(member("dcat:landingPage", JsonValue::text(self.landing_page.as_str())));
        e.push(member("dcat:accessService", svc));
        e.push(member("dcat:distribution", array(dists)));
        e.push(member("cdif:dataElement", array(elements)));
        e.push(member("dct:accessRights", rights));
        e.push(member("dct:temporal", JsonValue::opt_text(&self.temporal_coverage)));
        e.push(member("dct:spatial", JsonValue::opt_text(&self.spatial_coverage)));
        e.push(member("cdif:unit", JsonValue::texts(&self.units)));
        e.push(member("cdif:controlledVocabulary", JsonValue::texts(&self.vocabularies)));
        e.push(member("dcat:keyword", JsonValue::texts(&self.keywords)));
        let ghost ev = e@;
        let r = object(e);
        assert(crate::json::members(ev) =~= cdif_json(*self)->Object_0);
        r
    }
}

} // verus!
