use querygraph::dataverse::{parse_dataset, safe_fragment, sample_datasets, search_hit_ids, DataverseClient};
use querygraph::json::{JsonNumber, JsonValue};

fn s(v: &str) -> JsonValue {
    JsonValue::String(v.to_string())
}

fn obj(entries: Vec<(&str, JsonValue)>) -> JsonValue {
    JsonValue::Object(entries.into_iter().map(|(k, v)| (k.to_string(), v)).collect())
}

#[test]
fn projects_dataverse_dataset_to_croissant() {
    let dataset = sample_datasets().remove(0);
    let croissant = dataset.to_croissant();
    assert_eq!(croissant.files.len(), 1);
    assert_eq!(
        croissant.record_sets[0].fields[0].name,
        "dataset_persistent_id"
    );
}

#[test]
fn parses_dataverse_native_dataset_response() {
    let response = obj(vec![(
        "data",
        obj(vec![
            ("id", JsonValue::Number(JsonNumber::PosInt(42))),
            ("persistentId", s("doi:10.7910/DVN/ABC123")),
            (
                "latestVersion",
                obj(vec![
                    ("license", obj(vec![("name", s("CC0 1.0"))])),
                    (
                        "metadataBlocks",
                        obj(vec![(
                            "citation",
                            obj(vec![(
                                "fields",
                                JsonValue::Array(vec![
                                    obj(vec![("typeName", s("title")), ("value", s("Example dataset"))]),
                                    obj(vec![
                                        ("typeName", s("subject")),
                                        ("value", JsonValue::Array(vec![s("Computer and Information Science")])),
                                    ]),
                                    obj(vec![
                                        ("typeName", s("author")),
                                        (
                                            "value",
                                            JsonValue::Array(vec![obj(vec![(
                                                "authorName",
                                                obj(vec![("value", s("Ada Lovelace"))]),
                                            )])]),
                                        ),
                                    ]),
                                    obj(vec![
                                        ("typeName", s("keyword")),
                                        (
                                            "value",
                                            JsonValue::Array(vec![obj(vec![(
                                                "keywordValue",
                                                obj(vec![("value", s("metadata"))]),
                                            )])]),
                                        ),
                                    ]),
                                    obj(vec![
                                        ("typeName", s("dsDescription")),
                                        (
                                            "value",
                                            JsonValue::Array(vec![obj(vec![(
                                                "dsDescriptionValue",
                                                obj(vec![("value", s("Useful data."))]),
                                            )])]),
                                        ),
                                    ]),
                                ]),
                            )]),
                        )]),
                    ),
                    (
                        "files",
                        JsonValue::Array(vec![obj(vec![
                            ("description", s("Rows")),
                            (
                                "dataFile",
                                obj(vec![
                                    ("id", JsonValue::Number(JsonNumber::PosInt(99))),
                                    ("filename", s("rows.csv")),
                                    ("contentType", s("text/csv")),
                                ]),
                            ),
                        ])]),
                    ),
                ]),
            ),
        ]),
    )]);

    let dataset = parse_dataset("https://demo.dataverse.org", &response);
    assert_eq!(dataset.title, "Example dataset");
    assert_eq!(dataset.authors, vec!["Ada Lovelace"]);
    assert_eq!(
        dataset.files[0].download_url,
        "https://demo.dataverse.org/api/access/datafile/99"
    );
    assert_eq!(dataset.id, "42");
    assert_eq!(dataset.subjects, vec!["Computer and Information Science"]);
    assert_eq!(dataset.keywords, vec!["metadata"]);
    assert_eq!(dataset.description, "Useful data.");
    assert_eq!(dataset.license.as_deref(), Some("CC0 1.0"));
    assert_eq!(
        dataset.landing_page,
        "https://demo.dataverse.org/dataset.xhtml?persistentId=doi:10.7910/DVN/ABC123"
    );
    assert_eq!(dataset.files[0].filename, "rows.csv");
    assert_eq!(dataset.files[0].content_type.as_deref(), Some("text/csv"));
    assert_eq!(dataset.files[0].description.as_deref(), Some("Rows"));
}

#[test]
fn parse_dataset_falls_back_on_missing_members() {
    let dataset = parse_dataset("https://example.org/", &obj(vec![]));
    assert_eq!(dataset.persistent_id, "dataverse:unknown");
    assert_eq!(dataset.id, "dataverse:unknown");
    assert_eq!(dataset.title, "dataverse:unknown");
    assert_eq!(dataset.description, "Dataverse dataset");
    assert!(dataset.authors.is_empty());
    assert_eq!(dataset.license, None);
    assert_eq!(
        dataset.landing_page,
        "https://example.org/dataset.xhtml?persistentId=dataverse:unknown"
    );
    assert!(dataset.files.is_empty());
}

#[test]
fn croissant_projection_names_record_sets_after_file_stems() {
    let croissant = sample_datasets().remove(1).to_croissant();
    assert_eq!(
        croissant.id,
        "https://demo.dataverse.org/dataset.xhtml?persistentId=doi:10.7910/DVN/QGDEMO2/#dataset"
    );
    assert_eq!(croissant.record_sets[0].name, "access_survey");
    assert!(croissant.record_sets[0].id.ends_with("/recordset/access_survey"));
    assert_eq!(croissant.record_sets[0].fields.len(), 4);
    assert_eq!(croissant.record_sets[0].fields[3].data_type, "sc:URL");
    assert_eq!(croissant.files[0].encoding_format, "text/tab-separated-values");
    assert_eq!(croissant.keywords, vec!["access control", "governance", "survey", "Social Sciences"]);
    assert_eq!(croissant.license, "CC BY 4.0");
}

#[test]
fn safe_fragment_lowercases_and_replaces_other_characters() {
    assert_eq!(safe_fragment("Access Survey_v2.tab"), "access-survey_v2-tab");
    assert_eq!(safe_fragment("café"), "caf-");
}

#[test]
fn client_trims_trailing_slashes_and_keeps_token() {
    let client = DataverseClient::new("https://dataverse.harvard.edu//").with_api_token("SECRET-REDACTED");
    assert_eq!(client.base_url(), "https://dataverse.harvard.edu");
    assert_eq!(client.api_token(), Some("SECRET-REDACTED"));
    assert_eq!(DataverseClient::new("x").api_token(), None);
}

#[test]
fn search_hits_name_their_datasets() {
    let response = obj(vec![(
        "data",
        obj(vec![(
            "items",
            JsonValue::Array(vec![
                obj(vec![("global_id", s("doi:10.1/A")), ("persistentUrl", s("https://doi.org/10.1/X"))]),
                obj(vec![("persistentUrl", s("https://doi.org/10.1/B"))]),
                obj(vec![("name", s("no id"))]),
                obj(vec![("global_id", JsonValue::Null), ("persistentUrl", s("https://doi.org/10.1/C"))]),
            ]),
        )]),
    )]);
    assert_eq!(
        search_hit_ids(&response),
        vec!["doi:10.1/A".to_string(), "https://doi.org/10.1/B".to_string(), "https://doi.org/10.1/C".to_string()]
    );
    assert!(search_hit_ids(&obj(vec![("data", obj(vec![]))])).is_empty());
}
