use querygraph::dataverse::sample_datasets;
use querygraph::json::JsonValue;
use querygraph::lineage::{
    append_statements, attestation_payload, attestation_row, http_emission, jsonl_emission,
    ledger_append, merkle_root, run_id_for, sail_emission, LineageAttestation,
    OpenLineageRunEvent, RunRequest, SailGraphSummary, SailTableLoad,
};

fn text_at<'a>(v: &'a JsonValue, path: &[&str]) -> Option<&'a str> {
    let mut cur = v;
    for key in path {
        cur = cur.get(key)?;
    }
    cur.as_str()
}

fn attestation() -> LineageAttestation {
    LineageAttestation {
        issuer: "did:key:z6MkIssuer".into(),
        subject: "querygraph.test".into(),
        event_hash: "abc".into(),
        merkle_root: merkle_root("abc"),
        signature_type: "Ed25519Signature2020".into(),
        verification_method: "did:key:z6MkIssuer#z6MkIssuer".into(),
        signature: "ed25519:00".into(),
        signed_payload_sha256: "11".into(),
        created_at: "2025-01-01T00:00:00+00:00".into(),
    }
}

#[test]
fn run_ids_are_deterministic_uuids_matching_python() {
    assert_eq!(run_id_for("test"), "09c4d056-5e38-59fd-b4bb-f97972d8664f");
    assert_eq!(run_id_for("test"), run_id_for("test"));
    assert_ne!(run_id_for("test"), run_id_for("other"));
}

#[test]
fn run_ids_of_the_empty_seed() {
    assert_eq!(run_id_for(""), "16af43c1-2a32-562f-84c0-c8096630f75e");
}

#[test]
fn merkle_roots_hash_the_labelled_event_hash() {
    assert_eq!(
        merkle_root("abc"),
        "792f8bff0bbd7590dc9736c75f841f86f9febb3fe5e6acdf3a302a7b846be4f7"
    );
}

#[test]
fn attestation_payloads_list_their_fields_in_order() {
    assert_eq!(
        attestation_payload("did:key:i", "s", "h", "m", "t"),
        "querygraph-lineage-attestation-v1\nissuer:did:key:i\nsubject:s\nevent_hash:h\nmerkle_root:m\ncreated_at:t"
    );
}

#[test]
fn lineage_events_record_the_run_job_inputs_and_outputs() {
    let datasets = sample_datasets();
    let request = RunRequest {
        protocol: "typedid/a2a".into(),
        conversation_id: "conv-1".into(),
        payload_sha256: "ff".into(),
        signature: "sig-1".into(),
    };
    let graph = Some(SailGraphSummary {
        endpoint: "sc://localhost:50051".into(),
        loaded_nodes: 3,
        loaded_edges: 2,
    });
    let loads = vec![SailTableLoad {
        table_name: "qg.events".into(),
        metadata_path: "/m".into(),
        files_path: "/f".into(),
    }];
    let event = OpenLineageRunEvent::for_dataverse_agent_run(
        &datasets,
        &graph,
        &loads,
        &request,
        "sha256:bundle",
        "2025-01-01T00:00:00Z",
    );
    assert_eq!(event.event_type, "COMPLETE");
    assert_eq!(event.event_time, "2025-01-01T00:00:00Z");
    assert_eq!(text_at(&event.run, &["runId"]), Some("33c1b022-c09b-5cd7-8b89-7ef9f7ed9c19"));
    assert_eq!(
        text_at(&event.run, &["facets", "queryGraph_typeDid", "signature"]),
        Some("sig-1")
    );
    assert_eq!(text_at(&event.job, &["name"]), Some("dataverse-e2e-agent-answer"));
    assert_eq!(
        text_at(&event.job, &["facets", "queryGraph_semanticBundle", "bundleHash"]),
        Some("sha256:bundle")
    );
    assert_eq!(event.inputs.len(), datasets.len());
    assert_eq!(text_at(&event.inputs[0], &["namespace"]), Some("dataverse"));
    assert_eq!(event.outputs.len(), 1);
    assert_eq!(text_at(&event.outputs[0], &["name"]), Some("qg.events"));
    assert_eq!(event.producer, "https://querygraph.ai/qg-rust");
    let row = event.table_row("h", "{}");
    assert_eq!(row[5], "33c1b022-c09b-5cd7-8b89-7ef9f7ed9c19");
    assert_eq!(row[6], "querygraph.dataverse");
    assert_eq!(row[8], "{}");
}

#[test]
fn emissions_name_their_target_and_status() {
    let posted = http_emission("http://marquez/api/v1/lineage", "h", 201, "t");
    assert_eq!(posted.status, "posted");
    assert_eq!(posted.http_status, Some(201));
    let appended = jsonl_emission("/tmp/events.jsonl", "h", "t");
    assert_eq!(appended.status, "appended");
    assert_eq!(appended.path.as_deref(), Some("/tmp/events.jsonl"));
    let sail = sail_emission("sc://host", "qg", "h", "t");
    assert_eq!(sail.target, "sail://sc://host/qg.openlineage_events");
    assert_eq!(sail.status, "sail_appended");
    let ledger = ledger_append("/tmp/ledger.jsonl", &attestation(), "t");
    assert_eq!(ledger.signature, "ed25519:00");
    assert_eq!(ledger.merkle_root, merkle_root("abc"));
}

#[test]
fn sail_statements_append_through_a_view() {
    let (count, insert, create) = append_statements("qg", "openlineage_events", "staged");
    assert_eq!(count, "SELECT COUNT(*) AS row_count FROM `qg`.`openlineage_events`");
    assert_eq!(insert, "INSERT INTO `qg`.`openlineage_events` SELECT * FROM `staged`");
    assert_eq!(
        create,
        "CREATE TABLE `qg`.`openlineage_events` USING parquet AS SELECT * FROM `staged`"
    );
    let row = attestation_row(&attestation(), "{\"a\":1}");
    assert_eq!(row.len(), 10);
    assert_eq!(row[0], "abc");
    assert_eq!(row[9], "{\"a\":1}");
}
