//! OpenLineage run events and their attestations.
//!
//! Run IDs are UUIDv5 of a seed under the QueryGraph namespace, as the
//! OpenLineage specification wants UUIDs and qg-python derives the same
//! ones. Times are RFC 3339 texts that the caller reads from its clock.
use vstd::prelude::*;
use crate::dataverse::DataverseDataset;
use crate::digest::{hex_text, sha256, sha256_hex};
use crate::json::{array, member, object, Json, JsonValue};
use crate::lakehouse::sql::{qualified, qualified_spec, quote_ident, quoted};
use crate::text::{cat, cat3, owned, push_char, push_str, views};
use vstd::utf8::encode_utf8;

verus! {

/// The UUID that version 5 of RFC 4122 derives from a namespace UUID and a
/// name, as the `uuid` crate computes it (16 bytes).
pub uninterp spec fn uuid_v5(namespace: Seq<u8>, name: Seq<u8>) -> Seq<u8>;

/// `uuid::Uuid::new_v5(namespace, name).as_bytes()`: the 16 bytes of a
/// name-based UUID.
#[verifier::external_body]
fn uuid_v5_bytes(namespace: &Vec<u8>, name: &[u8]) -> (r: Vec<u8>)
    requires
        namespace@.len() == 16,
    ensures
        r@ == uuid_v5(namespace@, name@),
        r@.len() == 16,
{
    let ns = uuid::Uuid::from_slice(namespace.as_slice()).unwrap();
    uuid::Uuid::new_v5(&ns, name).as_bytes().to_vec()
}

/// The URL namespace of RFC 4122 (`6ba7b811-9dad-11d1-80b4-00c04fd430c8`).
pub open spec fn namespace_url() -> Seq<u8> {
    seq![
        0x6bu8, 0xa7u8, 0xb8u8, 0x11u8, 0x9du8, 0xadu8, 0x11u8, 0xd1u8, 0x80u8, 0xb4u8, 0x00u8,
        0xc0u8, 0x4fu8, 0xd4u8, 0x30u8, 0xc8u8,
    ]
}

/// The hyphenated text of 16 bytes: 8-4-4-4-12 lowercase hex digits.
pub open spec fn hyphenated(b: Seq<u8>) -> Seq<char> {
    hex_text(b.subrange(0, 4)) + seq!['-'] + hex_text(b.subrange(4, 6)) + seq!['-'] + hex_text(
        b.subrange(6, 8),
    ) + seq!['-'] + hex_text(b.subrange(8, 10)) + seq!['-'] + hex_text(b.subrange(10, 16))
}

/// The QueryGraph lineage namespace: UUIDv5 of its URL under the URL
/// namespace.
pub open spec fn lineage_namespace() -> Seq<u8> {
    uuid_v5(namespace_url(), encode_utf8("https://querygraph.ai/openlineage"@))
}

/// The run ID of a seed.
pub open spec fn run_id_spec(seed: Seq<char>) -> Seq<char> {
    hyphenated(uuid_v5(lineage_namespace(), encode_utf8(seed)))
}

/// The hexadecimal text of a range of bytes.
fn hex_range(b: &Vec<u8>, from: usize, to: usize) -> (r: String)
    requires
        from <= to <= b@.len(),
    ensures
        r@ == hex_text(b@.subrange(from as int, to as int)),
{
    let mut part: Vec<u8> = Vec::new();
    for i in from..to
        invariant
            from <= i <= to <= b@.len(),
            part@ == b@.subrange(from as int, i as int),
    {
        part.push(b[i]);
        assert(part@ =~= b@.subrange(from as int, i + 1));
    }
    crate::digest::hex_encode(part.as_slice())
}

/// Deterministic OpenLineage run ID of a seed (an envelope signature or a
/// bundle hash): the hyphenated UUIDv5 of the seed under the QueryGraph
/// namespace.
pub fn run_id_for(seed: &str) -> (r: String)
    ensures
        r@ == run_id_spec(seed@),
{
    let mut url: Vec<u8> = Vec::new();
    url.push(0x6b);
    url.push(0xa7);
    url.push(0xb8);
    url.push(0x11);
    url.push(0x9d);
    url.push(0xad);
    url.push(0x11);
    url.push(0xd1);
    url.push(0x80);
    url.push(0xb4);
    url.push(0x00);
    url.push(0xc0);
    url.push(0x4f);
    url.push(0xd4);
    url.push(0x30);
    url.push(0xc8);
    assert(url@ =~= namespace_url());
    let namespace = uuid_v5_bytes(&url, "https://querygraph.ai/openlineage".as_bytes());
    let id = uuid_v5_bytes(&namespace, seed.as_bytes());
    let mut r = hex_range(&id, 0, 4);
    push_char(&mut r, '-');
    let p = hex_range(&id, 4, 6);
    push_str(&mut r, p.as_str());
    push_char(&mut r, '-');
    let p = hex_range(&id, 6, 8);
    push_str(&mut r, p.as_str());
    push_char(&mut r, '-');
    let p = hex_range(&id, 8, 10);
    push_str(&mut r, p.as_str());
    push_char(&mut r, '-');
    let p = hex_range(&id, 10, 16);
    push_str(&mut r, p.as_str());
    r
}

/// The Merkle root that an attestation commits to for an event hash.
pub open spec fn merkle_root_spec(event_hash: Seq<char>) -> Seq<char> {
    hex_text(sha256(encode_utf8("querygraph-lineage\n"@ + event_hash)))
}

/// The Merkle root of an event hash: the SHA-256 of
/// `querygraph-lineage\n<event hash>`.
pub fn merkle_root(event_hash: &str) -> (r: String)
    ensures
        r@ == merkle_root_spec(event_hash@),
{
    let text = cat("querygraph-lineage\n", event_hash);
    sha256_hex(text.as_str().as_bytes())
}

/// The text an attestation signs.
pub open spec fn attestation_payload_spec(
    issuer: Seq<char>,
    subject: Seq<char>,
    event_hash: Seq<char>,
    merkle_root: Seq<char>,
    created_at: Seq<char>,
) -> Seq<char> {
    "querygraph-lineage-attestation-v1\nissuer:"@ + issuer + "\nsubject:"@ + subject + "\nevent_hash:"@
        + event_hash + "\nmerkle_root:"@ + merkle_root + "\ncreated_at:"@ + created_at
}

/// The text an attestation signs, with its creation time in RFC 3339.
pub fn attestation_payload(
    issuer: &str,
    subject: &str,
    event_hash: &str,
    merkle_root: &str,
    created_at: &str,
) -> (r: String)
    ensures
        r@ == attestation_payload_spec(issuer@, subject@, event_hash@, merkle_root@, created_at@),
{
    let mut r = cat("querygraph-lineage-attestation-v1\nissuer:", issuer);
    push_str(&mut r, "\nsubject:");
    push_str(&mut r, subject);
    push_str(&mut r, "\nevent_hash:");
    push_str(&mut r, event_hash);
    push_str(&mut r, "\nmerkle_root:");
    push_str(&mut r, merkle_root);
    push_str(&mut r, "\ncreated_at:");
    push_str(&mut r, created_at);
    r
}

/// An Ed25519 attestation of a lineage event by a DID.
#[derive(Debug, Clone, PartialEq, Eq)]
pub struct LineageAttestation {
    pub issuer: String,
    pub subject: String,
    pub event_hash: String,
    pub merkle_root: String,
    pub signature_type: String,
    pub verification_method: String,
    pub signature: String,
    pub signed_payload_sha256: String,
    pub created_at: String,
}

/// Where and how an event was emitted.
#[derive(Debug, Clone, PartialEq, Eq)]
pub struct OpenLineageEmission {
    pub target: String,
    pub event_hash: String,
    pub status: String,
    pub http_status: Option<u16>,
    pub path: Option<String>,
    pub emitted_at: String,
}

/// The record of an attestation appended to a DID ledger.
#[derive(Debug, Clone, PartialEq, Eq)]
pub struct DidLedgerAppend {
    pub path: String,
    pub subject: String,
    pub merkle_root: String,
    pub signature: String,
    pub appended_at: String,
}

/// The emission of an event posted to an HTTP endpoint.
pub fn http_emission(endpoint: &str, event_hash: &str, http_status: u16, emitted_at: &str) -> (r:
    OpenLineageEmission)
    ensures
        r.target@ == endpoint@,
        r.event_hash@ == event_hash@,
        r.status@ == "posted"@,
        r.http_status == Some(http_status),
        r.path is None,
        r.emitted_at@ == emitted_at@,
{
    OpenLineageEmission {
        target: owned(endpoint),
        event_hash: owned(event_hash),
        status: owned("posted"),
        http_status: Some(http_status),
        path: None,
        emitted_at: owned(emitted_at),
    }
}

/// The emission of an event appended to a JSON-lines file.
pub fn jsonl_emission(path: &str, event_hash: &str, emitted_at: &str) -> (r: OpenLineageEmission)
    ensures
        r.target@ == path@,
        r.event_hash@ == event_hash@,
        r.status@ == "appended"@,
        r.http_status is None,
        r.path matches Some(p) && p@ == path@,
        r.emitted_at@ == emitted_at@,
{
    OpenLineageEmission {
        target: owned(path),
        event_hash: owned(event_hash),
        status: owned("appended"),
        http_status: None,
        path: Some(owned(path)),
        emitted_at: owned(emitted_at),
    }
}

/// The emission of an event appended to the warehouse.
pub fn sail_emission(endpoint: &str, schema: &str, event_hash: &str, emitted_at: &str) -> (r:
    OpenLineageEmission)
    ensures
        r.target@ == "sail://"@ + endpoint@ + "/"@ + schema@ + ".openlineage_events"@,
        r.event_hash@ == event_hash@,
        r.status@ == "sail_appended"@,
        r.http_status is None,
        r.path is None,
        r.emitted_at@ == emitted_at@,
{
    let mut target = cat3("sail://", endpoint, "/");
    push_str(&mut target, schema);
    push_str(&mut target, ".openlineage_events");
    OpenLineageEmission {
        target,
        event_hash: owned(event_hash),
        status: owned("sail_appended"),
        http_status: None,
        path: None,
        emitted_at: owned(emitted_at),
    }
}

/// The record of an attestation appended to a ledger.
pub fn ledger_append(path: &str, attestation: &LineageAttestation, appended_at: &str) -> (r: DidLedgerAppend)
    ensures
        r.path@ == path@,
        r.subject == attestation.subject,
        r.merkle_root == attestation.merkle_root,
        r.signature == attestation.signature,
        r.appended_at@ == appended_at@,
{
    DidLedgerAppend {
        path: owned(path),
        subject: attestation.subject.clone(),
        merkle_root: attestation.merkle_root.clone(),
        signature: attestation.signature.clone(),
        appended_at: owned(appended_at),
    }
}

/// The statements that append staged rows to a table: a count that tells
/// whether the table exists, then an insert where it does and a create
/// where it does not.
pub fn append_statements(schema: &str, table: &str, view: &str) -> (r: (String, String, String))
    ensures
        r.0@ == "SELECT COUNT(*) AS row_count FROM "@ + qualified_spec(schema@, table@),
        r.1@ == "INSERT INTO "@ + qualified_spec(schema@, table@) + " SELECT * FROM "@ + quoted(view@),
        r.2@ == "CREATE TABLE "@ + qualified_spec(schema@, table@) + " USING parquet AS SELECT * FROM "@
            + quoted(view@),
{
    let t = qualified(schema, table);
    let v = quote_ident(view);
    let count = cat("SELECT COUNT(*) AS row_count FROM ", t.as_str());
    let mut insert = cat3("INSERT INTO ", t.as_str(), " SELECT * FROM ");
    push_str(&mut insert, v.as_str());
    let mut create = cat3("CREATE TABLE ", t.as_str(), " USING parquet AS SELECT * FROM ");
    push_str(&mut create, v.as_str());
    (count, insert, create)
}

/// The row of an attestation in the attestation table, with its JSON text.
pub fn attestation_row(a: &LineageAttestation, attestation_json: &str) -> (r: Vec<String>)
    ensures
        views(r@) == seq![
            a.event_hash@,
            a.issuer@,
            a.subject@,
            a.merkle_root@,
            a.signature_type@,
            a.verification_method@,
            a.signature@,
            a.signed_payload_sha256@,
            a.created_at@,
            attestation_json@,
        ],
{
    let mut r: Vec<String> = Vec::new();
    r.push(a.event_hash.clone());
    r.push(a.issuer.clone());
    r.push(a.subject.clone());
    r.push(a.merkle_root.clone());
    r.push(a.signature_type.clone());
    r.push(a.verification_method.clone());
    r.push(a.signature.clone());
    r.push(a.signed_payload_sha256.clone());
    r.push(a.created_at.clone());
    r.push(owned(attestation_json));
    assert(views(r@) =~= seq![
        a.event_hash@,
        a.issuer@,
        a.subject@,
        a.merkle_root@,
        a.signature_type@,
        a.verification_method@,
        a.signature@,
        a.signed_payload_sha256@,
        a.created_at@,
        attestation_json@,
    ]);
    r
}

/// What an event records of the signed request that started a run.
pub struct RunRequest {
    pub protocol: String,
    pub conversation_id: String,
    pub payload_sha256: String,
    pub signature: String,
}

/// What an event records of a loaded graph.
pub struct SailGraphSummary {
    pub endpoint: String,
    pub loaded_nodes: u64,
    pub loaded_edges: u64,
}

/// What an event records of a loaded table.
pub struct SailTableLoad {
    pub table_name: String,
    pub metadata_path: String,
    pub files_path: String,
}

/// An OpenLineage run event.
pub struct OpenLineageRunEvent {
    pub event_type: String,
    pub event_time: String,
    pub run: JsonValue,
    pub job: JsonValue,
    pub inputs: Vec<JsonValue>,
    pub outputs: Vec<JsonValue>,
    pub producer: String,
    pub schema_url: String,
}

/// The producer of QueryGraph's events and facets.
pub open spec fn producer() -> Seq<char> {
    "https://querygraph.ai/qg-rust"@
}

/// The `run` of an event.
pub open spec fn run_json(run_id: Seq<char>, r: RunRequest) -> Json {
    Json::Object(
        seq![
            ("runId"@, Json::Str(run_id)),
            (
                "facets"@,
                Json::Object(
                    seq![
                        (
                            "queryGraph_typeDid"@,
                            Json::Object(
                                seq![
                                    ("_producer"@, Json::Str(producer())),
                                    (
                                        "_schemaURL"@,
                                        Json::Str(
                                            "https://querygraph.ai/schemas/openlineage/querygraph-typedid-facet/0.1.0.json"@,
                                        ),
                                    ),
                                    ("protocol"@, Json::Str(r.protocol@)),
                                    ("conversationId"@, Json::Str(r.conversation_id@)),
                                    ("payloadSha256"@, Json::Str(r.payload_sha256@)),
                                    ("signature"@, Json::Str(r.signature@)),
                                ],
                            ),
                        ),
                    ],
                ),
            ),
        ],
    )
}

/// The `job` of an event.
pub open spec fn job_json(bundle_hash: Seq<char>, graph: Option<SailGraphSummary>) -> Json {
    Json::Object(
        seq![
            ("namespace"@, Json::Str("querygraph.dataverse"@)),
            ("name"@, Json::Str("dataverse-e2e-agent-answer"@)),
            (
                "facets"@,
                Json::Object(
                    seq![
                        (
                            "queryGraph_semanticBundle"@,
                            Json::Object(
                                seq![
                                    ("_producer"@, Json::Str(producer())),
                                    (
                                        "_schemaURL"@,
                                        Json::Str(
                                            "https://querygraph.ai/schemas/openlineage/querygraph-semantic-bundle-facet/0.1.0.json"@,
                                        ),
                                    ),
                                    ("bundleHash"@, Json::Str(bundle_hash)),
                                    (
                                        "sailEndpoint"@,
                                        match graph {
                                            Some(g) => Json::Str(g.endpoint@),
                                            None => Json::Null,
                                        },
                                    ),
                                    (
                                        "loadedNodes"@,
                                        match graph {
                                            Some(g) => Json::Int(g.loaded_nodes as int),
                                            None => Json::Null,
                                        },
                                    ),
                                    (
                                        "loadedEdges"@,
                                        match graph {
                                            Some(g) => Json::Int(g.loaded_edges as int),
                                            None => Json::Null,
                                        },
                                    ),
                                ],
                            ),
                        ),
                    ],
                ),
            ),
        ],
    )
}

/// The input of an event for a Dataverse dataset.
pub open spec fn input_json(d: DataverseDataset) -> Json {
    Json::Object(
        seq![
            ("namespace"@, Json::Str("dataverse"@)),
            ("name"@, Json::Str(d.persistent_id@)),
            (
                "facets"@,
                Json::Object(
                    seq![
                        (
                            "dataSource"@,
                            Json::Object(
                                seq![
                                    ("_producer"@, Json::Str(producer())),
                                    (
                                        "_schemaURL"@,
                                        Json::Str(
                                            "https://openlineage.io/spec/facets/1-0-0/DatasourceDatasetFacet.json"@,
                                        ),
                                    ),
                                    ("name"@, Json::Str("Dataverse"@)),
                                    ("uri"@, Json::Str(d.landing_page@)),
                                ],
                            ),
                        ),
                    ],
                ),
            ),
        ],
    )
}

/// The output of an event for a loaded table.
pub open spec fn output_json(l: SailTableLoad) -> Json {
    Json::Object(
        seq![
            ("namespace"@, Json::Str("sail"@)),
            ("name"@, Json::Str(l.table_name@)),
            (
                "facets"@,
                Json::Object(
                    seq![
                        (
                            "queryGraph_sailLoad"@,
                            Json::Object(
                                seq![
                                    ("_producer"@, Json::Str(producer())),
                                    (
                                        "_schemaURL"@,
                                        Json::Str(
                                            "https://querygraph.ai/schemas/openlineage/querygraph-sail-load-facet/0.1.0.json"@,
                                        ),
                                    ),
                                    ("metadataPath"@, Json::Str(l.metadata_path@)),
                                    ("filesPath"@, Json::Str(l.files_path@)),
                                ],
                            ),
                        ),
                    ],
                ),
            ),
        ],
    )
}

/// A facet object: producer, schema URL, then the given members.
fn facet(schema_url: &str, mut rest: Vec<(String, JsonValue)>) -> (r: JsonValue)
    ensures
        r.model() == Json::Object(
            seq![("_producer"@, Json::Str(producer())), ("_schemaURL"@, Json::Str(schema_url@))]
                + crate::json::members(rest@),
        ),
{
    let mut e: Vec<(String, JsonValue)> = Vec::new();
    e.push(member("_producer", JsonValue::text("https://querygraph.ai/qg-rust")));
    e.push(member("_schemaURL", JsonValue::text(schema_url)));
    let ghost head = e@;
    let ghost tail = rest@;
    e.append(&mut rest);
    assert(crate::json::members(e@) =~= crate::json::members(head) + crate::json::members(tail));
    assert(crate::json::members(head) =~= seq![
        ("_producer"@, Json::Str(producer())),
        ("_schemaURL"@, Json::Str(schema_url@)),
    ]);
    object(e)
}

/// A one-member object.
fn single(key: &str, value: JsonValue) -> (r: JsonValue)
    ensures
        r.model() == Json::Object(seq![(key@, value.model())]),
{
    let ghost vm = value.model();
    let mut e: Vec<(String, JsonValue)> = Vec::new();
    e.push(member(key, value));
    assert(crate::json::members(e@) =~= seq![(key@, vm)]);
    object(e)
}

/// The input of an event for a Dataverse dataset.
fn input_value(d: &DataverseDataset) -> (r: JsonValue)
    ensures
        r.model() == input_json(*d),
{
    let mut f: Vec<(String, JsonValue)> = Vec::new();
    f.push(member("name", JsonValue::text("Dataverse")));
    f.push(member("uri", JsonValue::text(d.landing_page.as_str())));
    let ghost fv = f@;
    let source = facet("https://openlineage.io/spec/facets/1-0-0/DatasourceDatasetFacet.json", f);
    let facets = single("dataSource", source);
    let mut e: Vec<(String, JsonValue)> = Vec::new();
    e.push(member("namespace", JsonValue::text("dataverse")));
    e.push(member("name", JsonValue::text(d.persistent_id.as_str())));
    e.push(member("facets", facets));
    let ghost ev = e@;
    let r = object(e);
    proof {
        assert(crate::json::members(fv) =~= seq![
            ("name"@, Json::Str("Dataverse"@)),
            ("uri"@, Json::Str(d.landing_page@)),
        ]);
        let src = input_json(*d)->Object_0[2].1->Object_0[0].1;
        assert(seq![
            ("_producer"@, Json::Str(producer())),
            ("_schemaURL"@, Json::Str("https://openlineage.io/spec/facets/1-0-0/DatasourceDatasetFacet.json"@)),
        ] + crate::json::members(fv) =~= src->Object_0);
        assert(crate::json::members(ev) =~= input_json(*d)->Object_0);
    }
    r
}

/// The output of an event for a loaded table.
fn output_value(l: &SailTableLoad) -> (r: JsonValue)
    ensures
        r.model() == output_json(*l),
{
    let mut f: Vec<(String, JsonValue)> = Vec::new();
    f.push(member("metadataPath", JsonValue::text(l.metadata_path.as_str())));
    f.push(member("filesPath", JsonValue::text(l.files_path.as_str())));
    let ghost fv = f@;
    let load = facet(
        "https://querygraph.ai/schemas/openlineage/querygraph-sail-load-facet/0.1.0.json",
        f,
    );
    let facets = single("queryGraph_sailLoad", load);
    let mut e: Vec<(String, JsonValue)> = Vec::new();
    e.push(member("namespace", JsonValue::text("sail")));
    e.push(member("name", JsonValue::text(l.table_name.as_str())));
    e.push(member("facets", facets));
    let ghost ev = e@;
    let r = object(e);
    proof {
        assert(crate::json::members(fv) =~= seq![
            ("metadataPath"@, Json::Str(l.metadata_path@)),
            ("filesPath"@, Json::Str(l.files_path@)),
        ]);
        let src = output_json(*l)->Object_0[2].1->Object_0[0].1;
        assert(seq![
            ("_producer"@, Json::Str(producer())),
            ("_schemaURL"@, Json::Str("https://querygraph.ai/schemas/openlineage/querygraph-sail-load-facet/0.1.0.json"@)),
        ] + crate::json::members(fv) =~= src->Object_0);
        assert(crate::json::members(ev) =~= output_json(*l)->Object_0);
    }
    r
}

impl OpenLineageRunEvent {
    /// The `COMPLETE` event of a Dataverse agent run at `event_time`: the
    /// run identified by the request's signature, the job with the
    /// semantic bundle and the loaded graph, the datasets as inputs and the
    /// loaded tables as outputs.
    pub fn for_dataverse_agent_run(
        datasets: &Vec<DataverseDataset>,
        graph: &Option<SailGraphSummary>,
        loads: &Vec<SailTableLoad>,
        request: &RunRequest,
        bundle_hash: &str,
        event_time: &str,
    ) -> (r: OpenLineageRunEvent)
        ensures
            r.event_type@ == "COMPLETE"@,
            r.event_time@ == event_time@,
            r.run.model() == run_json(run_id_spec(request.signature@), *request),
            r.job.model() == job_json(bundle_hash@, *graph),
            r.inputs@.len() == datasets@.len(),
            forall|i: int| 0 <= i < datasets@.len() ==> (#[trigger] r.inputs@[i]).model() == input_json(datasets@[i]),
            r.outputs@.len() == loads@.len(),
            forall|i: int| 0 <= i < loads@.len() ==> (#[trigger] r.outputs@[i]).model() == output_json(loads@[i]),
            r.producer@ == producer(),
            r.schema_url@ == "https://openlineage.io/spec/2-0-2/OpenLineage.json"@,
    {
        let run_id = run_id_for(request.signature.as_str());
        let mut t: Vec<(String, JsonValue)> = Vec::new();
        t.push(member("protocol", JsonValue::text(request.protocol.as_str())));
        t.push(member("conversationId", JsonValue::text(request.conversation_id.as_str())));
        t.push(member("payloadSha256", JsonValue::text(request.payload_sha256.as_str())));
        t.push(member("signature", JsonValue::text(request.signature.as_str())));
        let ghost tv = t@;
        let typedid = facet(
            "https://querygraph.ai/schemas/openlineage/querygraph-typedid-facet/0.1.0.json",
            t,
        );
        let run_facets = single("queryGraph_typeDid", typedid);
        let mut run: Vec<(String, JsonValue)> = Vec::new();
        run.push(member("runId", JsonValue::text(run_id.as_str())));
        run.push(member("facets", run_facets));
        let ghost rv = run@;
        let run = object(run);
        proof {
            assert(crate::json::members(tv) =~= seq![
                ("protocol"@, Json::Str(request.protocol@)),
                ("conversationId"@, Json::Str(request.conversation_id@)),
                ("payloadSha256"@, Json::Str(request.payload_sha256@)),
                ("signature"@, Json::Str(request.signature@)),
            ]);
            let rj = run_json(run_id_spec(request.signature@), *request);
            let src = rj->Object_0[1].1->Object_0[0].1;
            assert(seq![
                ("_producer"@, Json::Str(producer())),
                ("_schemaURL"@, Json::Str("https://querygraph.ai/schemas/openlineage/querygraph-typedid-facet/0.1.0.json"@)),
            ] + crate::json::members(tv) =~= src->Object_0);
            assert(crate::json::members(rv) =~= rj->Object_0);
        }
        let mut b: Vec<(String, JsonValue)> = Vec::new();
        b.push(member("bundleHash", JsonValue::text(bundle_hash)));
        match graph {
            Some(g) => {
                b.push(member("sailEndpoint", JsonValue::text(g.endpoint.as_str())));
                b.push(member("loadedNodes", JsonValue::uint(g.loaded_nodes)));
                b.push(member("loadedEdges", JsonValue::uint(g.loaded_edges)));
            },
            None => {
                b.push(member("sailEndpoint", JsonValue::Null));
                b.push(member("loadedNodes", JsonValue::Null));
                b.push(member("loadedEdges", JsonValue::Null));
            },
        }
        let ghost bv = b@;
        let bundle = facet(
            "https://querygraph.ai/schemas/openlineage/querygraph-semantic-bundle-facet/0.1.0.json",
            b,
        );
        let job_facets = single("queryGraph_semanticBundle", bundle);
        let mut job: Vec<(String, JsonValue)> = Vec::new();
        job.push(member("namespace", JsonValue::text("querygraph.dataverse")));
        job.push(member("name", JsonValue::text("dataverse-e2e-agent-answer")));
        job.push(member("facets", job_facets));
        let ghost jv = job@;
        let job = object(job);
        proof {
            assert(crate::json::members(bv) =~= seq![
                ("bundleHash"@, Json::Str(bundle_hash@)),
                (
                    "sailEndpoint"@,
                    match *graph {
                        Some(g) => Json::Str(g.endpoint@),
                        None => Json::Null,
                    },
                ),
                (
                    "loadedNodes"@,
                    match *graph {
                        Some(g) => Json::Int(g.loaded_nodes as int),
                        None => Json::Null,
                    },
                ),
                (
                    "loadedEdges"@,
                    match *graph {
                        Some(g) => Json::Int(g.loaded_edges as int),
                        None => Json::Null,
                    },
                ),
            ]);
            let jj = job_json(bundle_hash@, *graph);
            let src = jj->Object_0[2].1->Object_0[0].1;
            assert(seq![
                ("_producer"@, Json::Str(producer())),
                ("_schemaURL"@, Json::Str("https://querygraph.ai/schemas/openlineage/querygraph-semantic-bundle-facet/0.1.0.json"@)),
            ] + crate::json::members(bv) =~= src->Object_0);
            assert(crate::json::members(jv) =~= jj->Object_0);
        }
        let mut inputs: Vec<JsonValue> = Vec::new();
        for i in 0..datasets.len()
            invariant
                inputs@.len() == i,
                forall|j: int| 0 <= j < i ==> (#[trigger] inputs@[j]).model() == input_json(datasets@[j]),
        {
            inputs.push(input_value(&datasets[i]));
        }
        let mut outputs: Vec<JsonValue> = Vec::new();
        for i in 0..loads.len()
            invariant
                outputs@.len() == i,
                forall|j: int| 0 <= j < i ==> (#[trigger] outputs@[j]).model() == output_json(loads@[j]),
        {
            outputs.push(output_value(&loads[i]));
        }
        OpenLineageRunEvent {
            event_type: owned("COMPLETE"),
            event_time: owned(event_time),
            run,
            job,
            inputs,
            outputs,
            producer: owned("https://querygraph.ai/qg-rust"),
            schema_url: owned("https://openlineage.io/spec/2-0-2/OpenLineage.json"),
        }
    }

    /// The row of the event in the event table, given its hash and JSON
    /// text: the run ID and the job's namespace and name where they are
    /// strings, empty texts otherwise.
    pub fn table_row(&self, event_hash: &str, event_json: &str) -> (r: Vec<String>)
        ensures
            views(r@) == seq![
                event_hash@,
                self.event_type@,
                self.event_time@,
                self.producer@,
                self.schema_url@,
                str_member(self.run.model(), "runId"@),
                str_member(self.job.model(), "namespace"@),
                str_member(self.job.model(), "name"@),
                event_json@,
            ],
    {
        let mut r: Vec<String> = Vec::new();
        r.push(owned(event_hash));
        r.push(self.event_type.clone());
        r.push(self.event_time.clone());
        r.push(self.producer.clone());
        r.push(self.schema_url.clone());
        r.push(str_member_value(&self.run, "runId"));
        r.push(str_member_value(&self.job, "namespace"));
        r.push(str_member_value(&self.job, "name"));
        r.push(owned(event_json));
        assert(views(r@) =~= seq![
            event_hash@,
            self.event_type@,
            self.event_time@,
            self.producer@,
            self.schema_url@,
            str_member(self.run.model(), "runId"@),
            str_member(self.job.model(), "namespace"@),
            str_member(self.job.model(), "name"@),
            event_json@,
        ]);
        r
    }
}

/// A string member's text, or the empty text.
pub open spec fn str_member(v: Json, key: Seq<char>) -> Seq<char> {
    match v.get(key) {
        Some(m) => match m.as_str() {
            Some(s) => s,
            None => Seq::empty(),
        },
        None => Seq::empty(),
    }
}

/// A string member's text, or the empty text.
fn str_member_value(v: &JsonValue, key: &str) -> (r: String)
    ensures
        r@ == str_member(v.model(), key@),
{
    match v.get(key) {
        Some(m) => match m.as_str() {
            Some(s) => owned(s),
            None => String::new(),
        },
        None => String::new(),
    }
}

} // verus!
