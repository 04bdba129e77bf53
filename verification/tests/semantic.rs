use querygraph::a2a::{agent_card, A2A_PROTOCOL_VERSION};
use querygraph::cdif::{CdifProfile, CdifResource};
use querygraph::codata::CodataOdrlClient;
use querygraph::croissant::{CroissantDataset, Field, FileObject, RecordSet};
use querygraph::dataverse::sample_datasets;
use querygraph::did::DidDocument;
use querygraph::json::{JsonNumber, JsonValue};
use serde_json::Value;

fn from_json(v: &JsonValue) -> Value {
    match v {
        JsonValue::Null => Value::Null,
        JsonValue::Bool(b) => Value::Bool(*b),
        JsonValue::Number(JsonNumber::PosInt(u)) => Value::from(*u),
        JsonValue::Number(JsonNumber::NegInt(i)) => Value::from(*i),
        JsonValue::Number(JsonNumber::Float(t)) => serde_json::from_str(t).unwrap(),
        JsonValue::String(s) => Value::String(s.clone()),
        JsonValue::Array(items) => Value::Array(items.iter().map(from_json).collect()),
        JsonValue::Object(entries) => {
            let mut m = serde_json::Map::new();
            for (k, v) in entries {
                if !m.contains_key(k) {
                    m.insert(k.clone(), from_json(v));
                }
            }
            Value::Object(m)
        }
    }
}

fn small_dataset() -> CroissantDataset {
    CroissantDataset {
        id: "ds".into(),
        name: "Energy".into(),
        description: "Energy data".into(),
        license: "CC0".into(),
        creators: vec!["Ada".into()],
        files: vec![FileObject {
            id: "ds/file/1".into(),
            name: "rows.csv".into(),
            content_url: "https://example.test/rows.csv".into(),
            encoding_format: "text/csv".into(),
        }],
        record_sets: vec![RecordSet {
            id: "ds/rs".into(),
            name: "rows".into(),
            fields: vec![
                Field::new("cost", "sc:Float", "Monthly cost").semantic_type("schema:price"),
                Field::new("city", "sc:Text", "City"),
            ],
        }],
        keywords: vec!["energy".into()],
    }
}

#[test]
fn card_declares_protocol_url_and_skills() {
    let card = from_json(&agent_card("http://localhost:8080/"));
    assert_eq!(card["protocolVersion"], A2A_PROTOCOL_VERSION);
    assert_eq!(card["url"], "http://localhost:8080/v1");
    let ids: Vec<&str> = card["skills"]
        .as_array()
        .unwrap()
        .iter()
        .map(|skill| skill["id"].as_str().unwrap())
        .collect();
    assert_eq!(
        ids,
        ["navigator-bundle", "qglake-story", "verify-envelope", "import-semantic-model", "semantic-search",]
    );
    assert!(card["securitySchemes"]["typedid"]["description"]
        .as_str()
        .unwrap()
        .contains("querygraph-typedid-signing-v1"));
}

#[test]
fn card_url_drops_every_trailing_slash() {
    let card = from_json(&agent_card("https://qg.example///"));
    assert_eq!(card["url"], "https://qg.example/v1");
    assert_eq!(card["version"], "0.1.0");
    assert_eq!(card["capabilities"]["streaming"], false);
    assert_eq!(card["defaultInputModes"], Value::Array(vec![Value::String("application/json".into())]));
}

#[test]
fn cdif_projection_includes_distributions_and_data_elements() {
    let croissant = sample_datasets().remove(0).to_croissant();
    let cdif = CdifResource::from_croissant(
        &croissant,
        "https://example.test/dataset",
        "https://example.test/access",
    );
    assert_eq!(cdif.distributions.len(), 1);
    assert!(!cdif.data_elements.is_empty());
    assert!(cdif.profiles.contains(&CdifProfile::AccessRights));
}

#[test]
fn cdif_projection_names_elements_by_record_set_and_collects_vocabulary() {
    let cdif = CdifResource::from_croissant(&small_dataset(), "https://l", "https://a");
    assert_eq!(cdif.data_elements.len(), 2);
    assert_eq!(cdif.data_elements[0].id, "ds/rs/field/cost");
    assert_eq!(cdif.data_elements[1].record_set, "ds/rs");
    assert_eq!(cdif.vocabularies, vec!["schema:price".to_string()]);
    assert_eq!(cdif.profiles.len(), 8);
    assert!(!cdif.profiles.contains(&CdifProfile::Provenance));
    let rights = cdif.access_rights.as_ref().unwrap();
    assert_eq!(rights.license, "CC0");
    assert!(rights.policy_id.is_none());
    assert_eq!(CdifProfile::Provenance.iri(), "https://cdif.codata.org/profile/provenance");
}

#[test]
fn odrl_policies_attach_to_access_rights() {
    let cdif = CdifResource::from_croissant(&small_dataset(), "https://l", "https://a")
        .with_odrl_policy("policy:1", JsonValue::Bool(true));
    let rights = cdif.access_rights.as_ref().unwrap();
    assert_eq!(rights.policy_id.as_deref(), Some("policy:1"));
    let doc = from_json(&cdif.to_json_ld());
    assert_eq!(doc["dct:accessRights"]["@id"], "policy:1");
    assert_eq!(doc["dct:accessRights"]["odrl:policy"], true);
}

#[test]
fn cdif_documents_carry_profiles_services_and_elements() {
    let cdif = CdifResource::from_croissant(&small_dataset(), "https://l", "https://a");
    let doc = from_json(&cdif.to_json_ld());
    assert_eq!(doc["@type"], "dcat:Dataset");
    assert_eq!(doc["@id"], "ds");
    assert_eq!(doc["dcat:accessService"]["endpointURL"], "https://a");
    assert_eq!(doc["cdif:profile"][0], "https://cdif.codata.org/profile/discovery");
    assert_eq!(doc["dcat:distribution"][0]["dcat:downloadURL"], "https://example.test/rows.csv");
    assert_eq!(doc["cdif:dataElement"][1]["cdif:semanticType"], Value::Null);
    assert_eq!(doc["cdif:dataElement"][0]["cdif:semanticType"], "schema:price");
    assert_eq!(doc["dct:temporal"], Value::Null);
    assert_eq!(doc["dct:accessRights"]["odrl:policy"], Value::Null);
    assert_eq!(doc["dcat:keyword"][0], "energy");
}

#[test]
fn croissant_documents_use_the_croissant_vocabulary() {
    let doc = from_json(&small_dataset().to_json_ld());
    assert_eq!(doc["@context"]["cr"], "http://mlcommons.org/croissant/");
    assert_eq!(doc["@type"], "cr:Dataset");
    assert_eq!(doc["creator"][0]["@type"], "Person");
    assert_eq!(doc["creator"][0]["name"], "Ada");
    assert_eq!(doc["distribution"][0]["encodingFormat"], "text/csv");
    assert_eq!(doc["recordSet"][0]["field"][0]["sameAs"], "schema:price");
    assert_eq!(doc["recordSet"][0]["field"][1]["sameAs"], Value::Null);
    assert_eq!(doc["keywords"][0], "energy");
}

#[test]
fn fields_take_an_optional_semantic_type() {
    let field = Field::new("a", "sc:Text", "A");
    assert!(field.semantic_type.is_none());
    let typed = field.semantic_type("schema:name");
    assert_eq!(typed.semantic_type.as_deref(), Some("schema:name"));
    assert_eq!(typed.name, "a");
}

#[test]
fn oyd_documents_derive_from_the_seed_digest() {
    let doc = DidDocument::new_oyd(b"seed", "did:example:controller");
    assert_eq!(doc.id, "did:oyd:zQmQ4xdZrBLXictcb557w9mosnLjQ7DEHd49m7rqG7KacR8");
    assert_eq!(doc.public_key_multibase, "z2jJvTiBpkj9G1weu5jSJ9i4MDvFcae4N5T7196i1NvM8");
    assert_eq!(doc.controller, "did:example:controller");
    assert!(doc.service_endpoint.is_none());
    let doc = doc.with_service_endpoint("https://svc.example");
    assert_eq!(doc.service_endpoint.as_deref(), Some("https://svc.example"));
}

#[test]
fn codata_clients_trim_their_base_url() {
    let client = CodataOdrlClient::new("https://odrl.example//");
    assert_eq!(client.base_url(), "https://odrl.example");
    assert_eq!(client.create_from_url_endpoint(), "https://odrl.example/api/did/create_from_url");
    assert_eq!(CodataOdrlClient::default_service().base_url(), "https://odrl.dev.codata.org");
}
