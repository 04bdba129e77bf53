//! The Agent2Agent (A2A) Agent Card of a QueryGraph deployment.
//!
//! The card publishes the `/v1` API as skills and documents the TypeDID
//! envelope contract (Ed25519 under `did:key` verification methods) as its
//! security scheme.
use vstd::prelude::*;
use crate::json::{array, member, object, Json, JsonValue};
use crate::text::{cat, trim_end_char, trim_end_matches};

verus! {

/// The A2A protocol version the card declares.
pub const A2A_PROTOCOL_VERSION: &'static str = "0.3.0";

/// Texts as a JSON array.
pub open spec fn strs(v: Seq<Seq<char>>) -> Json {
    Json::Array(v.map_values(|s: Seq<char>| Json::Str(s)))
}

/// A skill of the card.
pub open spec fn skill_json(
    id: Seq<char>,
    name: Seq<char>,
    description: Seq<char>,
    tags: Seq<Seq<char>>,
    example: Seq<char>,
) -> Json {
    Json::Object(
        seq![
            ("id"@, Json::Str(id)),
            ("name"@, Json::Str(name)),
            ("description"@, Json::Str(description)),
            ("tags"@, strs(tags)),
            ("examples"@, strs(seq![example])),
        ],
    )
}

/// The skills, which mirror the `/v1` API.
pub open spec fn skills_json() -> Json {
    Json::Array(
        seq![
            skill_json(
                "navigator-bundle"@,
                "Build semantic bundle"@,
                "Project a dataset into the four governed layers: Semantic Croissant, CDIF, DID, and ODRL."@,
                seq!["semantic-layer"@, "croissant"@, "cdif"@, "did"@, "odrl"@],
                "Build a semantic bundle for the hazard vocabulary dataset."@,
            ),
            skill_json(
                "qglake-story"@,
                "Governed multi-agent run"@,
                "Run the compartmentalized supervisor/specialist/broker/synthesis story with signed envelopes, policy receipts, and an OpenLineage evidence chain."@,
                seq!["governance"@, "rbac"@, "odrl"@, "openlineage"@, "typedid"@],
                "Where do fiscal capacity, energy burden, mobility disruption, and climate-health risk overlap?"@,
            ),
            skill_json(
                "verify-envelope"@,
                "Verify TypeDID envelope"@,
                "Verify a TypeDID envelope's payload hash and Ed25519 signature against its did:key verification method."@,
                seq!["audit"@, "ed25519"@, "did"@, "typedid"@],
                "Verify this agent response envelope before trusting its summary."@,
            ),
            skill_json(
                "import-semantic-model"@,
                "Import semantic model"@,
                "Import an OSI semantic model or a Semantic Croissant document into the governed model registry."@,
                seq!["osi"@, "croissant"@, "semantic-layer"@],
                "Import this OSI YAML so agents can resolve its metrics."@,
            ),
            skill_json(
                "semantic-search"@,
                "Search semantic models"@,
                "Find datasets, fields, metrics, and ontology terms matching a business term across registered semantic models."@,
                seq!["search"@, "osi"@, "ontology"@],
                "Which fields describe monthly energy cost?"@,
            ),
        ],
    )
}

/// The description of the card's TypeDID security scheme.
pub open spec fn typedid_scheme_description() -> Seq<char> {
    "TypeDID signed envelope: Ed25519 signature over the querygraph-typedid-signing-v1 payload, verifiable against the did:key verification method carried in the envelope. The sender must equal that signing DID. Denials are receipts, not errors."@
}

/// The Agent Card of a deployment at `base_url`: its API lies under the
/// base URL without trailing slashes, followed by `/v1`.
pub open spec fn card_json(base_url: Seq<char>) -> Json {
    Json::Object(
        seq![
            ("protocolVersion"@, Json::Str(A2A_PROTOCOL_VERSION@)),
            ("name"@, Json::Str("QueryGraph Navigator"@)),
            ("description"@, Json::Str(
                "Governed semantic-layer agent: builds four-layer semantic bundles (Croissant, CDIF, DID, ODRL), answers over RBAC+ODRL-gated lakehouse data with signed TypeDID envelopes, and emits an OpenLineage evidence chain anchored by Ed25519 attestations."@,
            )),
            ("url"@, Json::Str(trim_end_char(base_url, '/') + "/v1"@)),
            ("preferredTransport"@, Json::Str("HTTP+JSON"@)),
            ("provider"@, Json::Object(
                seq![
                    ("organization"@, Json::Str("QueryGraph"@)),
                    ("url"@, Json::Str("https://querygraph.ai"@)),
                ],
            )),
            ("version"@, Json::Str("0.1.0"@)),
            ("capabilities"@, Json::Object(
                seq![
                    ("streaming"@, Json::Bool(false)),
                    ("pushNotifications"@, Json::Bool(false)),
                    ("stateTransitionHistory"@, Json::Bool(false)),
                ],
            )),
            ("defaultInputModes"@, strs(seq!["application/json"@])),
            ("defaultOutputModes"@, strs(seq!["application/json"@])),
            ("skills"@, skills_json()),
            ("securitySchemes"@, Json::Object(
                seq![
                    ("typedid"@, Json::Object(
                        seq![
                            ("type"@, Json::Str("http"@)),
                            ("scheme"@, Json::Str("bearer"@)),
                            ("description"@, Json::Str(typedid_scheme_description())),
                        ],
                    )),
                ],
            )),
        ],
    )
}

fn text_list(items: Vec<&str>) -> (r: JsonValue)
    ensures
        r.model() == strs(items@.map_values(|s: &str| s@)),
{
    let mut out: Vec<JsonValue> = Vec::new();
    for i in 0..items.len()
        invariant
            out@.len() == i,
            forall|j: int| 0 <= j < i ==> #[trigger] out@[j].model() == Json::Str(items@[j]@),
    {
        out.push(JsonValue::text(items[i]));
    }
    assert(out@.map_values(|v: JsonValue| v.model()) =~= items@.map_values(|s: &str| s@).map_values(
        |s: Seq<char>| Json::Str(s),
    ));
    array(out)
}

fn one_text(item: &str) -> (r: JsonValue)
    ensures
        r.model() == strs(seq![item@]),
{
    let mut v: Vec<&str> = Vec::new();
    v.push(item);
    assert(v@.map_values(|s: &str| s@) =~= seq![item@]);
    text_list(v)
}

fn skill_value(id: &str, name: &str, description: &str, tags: Vec<&str>, example: &str) -> (r:
    JsonValue)
    ensures
        r.model() == skill_json(id@, name@, description@, tags@.map_values(|s: &str| s@), example@),
{
    let ghost tv = tags@;
    let mut e: Vec<(String, JsonValue)> = Vec::new();
    e.push(member("id", JsonValue::text(id)));
    e.push(member("name", JsonValue::text(name)));
    e.push(member("description", JsonValue::text(description)));
    e.push(member("tags", text_list(tags)));
    e.push(member("examples", one_text(example)));
    let ghost ev = e@;
    let r = object(e);
    assert(crate::json::members(ev) =~= skill_json(
        id@,
        name@,
        description@,
        tv.map_values(|s: &str| s@),
        example@,
    )->Object_0);
    r
}

fn skills_value() -> (r: JsonValue)
    ensures
        r.model() == skills_json(),
{
    let mut out: Vec<JsonValue> = Vec::new();
    let mut t: Vec<&str> = Vec::new();
    t.push("semantic-layer");
    t.push("croissant");
    t.push("cdif");
    t.push("did");
    t.push("odrl");
    assert(t@.map_values(|s: &str| s@) =~= seq!["semantic-layer"@, "croissant"@, "cdif"@, "did"@, "odrl"@]);
    out.push(
        skill_value(
            "navigator-bundle",
            "Build semantic bundle",
            "Project a dataset into the four governed layers: Semantic Croissant, CDIF, DID, and ODRL.",
            t,
            "Build a semantic bundle for the hazard vocabulary dataset.",
        ),
    );
    let mut t: Vec<&str> = Vec::new();
    t.push("governance");
    t.push("rbac");
    t.push("odrl");
    t.push("openlineage");
    t.push("typedid");
    assert(t@.map_values(|s: &str| s@) =~= seq!["governance"@, "rbac"@, "odrl"@, "openlineage"@, "typedid"@]);
    out.push(
        skill_value(
            "qglake-story",
            "Governed multi-agent run",
            "Run the compartmentalized supervisor/specialist/broker/synthesis story with signed envelopes, policy receipts, and an OpenLineage evidence chain.",
            t,
            "Where do fiscal capacity, energy burden, mobility disruption, and climate-health risk overlap?",
        ),
    );
    let mut t: Vec<&str> = Vec::new();
    t.push("audit");
    t.push("ed25519");
    t.push("did");
    t.push("typedid");
    assert(t@.map_values(|s: &str| s@) =~= seq!["audit"@, "ed25519"@, "did"@, "typedid"@]);
    out.push(
        skill_value(
            "verify-envelope",
            "Verify TypeDID envelope",
            "Verify a TypeDID envelope's payload hash and Ed25519 signature against its did:key verification method.",
            t,
            "Verify this agent response envelope before trusting its summary.",
        ),
    );
    let mut t: Vec<&str> = Vec::new();
    t.push("osi");
    t.push("croissant");
    t.push("semantic-layer");
    assert(t@.map_values(|s: &str| s@) =~= seq!["osi"@, "croissant"@, "semantic-layer"@]);
    out.push(
        skill_value(
            "import-semantic-model",
            "Import semantic model",
            "Import an OSI semantic model or a Semantic Croissant document into the governed model registry.",
            t,
            "Import this OSI YAML so agents can resolve its metrics.",
        ),
    );
    let mut t: Vec<&str> = Vec::new();
    t.push("search");
    t.push("osi");
    t.push("ontology");
    assert(t@.map_values(|s: &str| s@) =~= seq!["search"@, "osi"@, "ontology"@]);
    out.push(
        skill_value(
            "semantic-search",
            "Search semantic models",
            "Find datasets, fields, metrics, and ontology terms matching a business term across registered semantic models.",
            t,
            "Which fields describe monthly energy cost?",
        ),
    );
    let ghost ov = out@;
    let r = array(out);
    assert(ov.map_values(|v: JsonValue| v.model()) =~= skills_json()->Array_0);
    r
}

/// The Agent Card of a deployment at `base_url`.
pub fn agent_card(base_url: &str) -> (r: JsonValue)
    ensures
        r.model() == card_json(base_url@),
{
    let base = trim_end_matches(base_url, '/');
    let url = cat(base.as_str(), "/v1");
    let mut provider: Vec<(String, JsonValue)> = Vec::new();
    provider.push(member("organization", JsonValue::text("QueryGraph")));
    provider.push(member("url", JsonValue::text("https://querygraph.ai")));
    let ghost pv = provider@;
    let provider = object(provider);
    assert(crate::json::members(pv) =~= card_json(base_url@)->Object_0[5].1->Object_0);
    let mut caps: Vec<(String, JsonValue)> = Vec::new();
    caps.push(member("streaming", JsonValue::Bool(false)));
    caps.push(member("pushNotifications", JsonValue::Bool(false)));
    caps.push(member("stateTransitionHistory", JsonValue::Bool(false)));
    let ghost cv = caps@;
    let caps = object(caps);
    assert(crate::json::members(cv) =~= card_json(base_url@)->Object_0[7].1->Object_0);
    let mut scheme: Vec<(String, JsonValue)> = Vec::new();
    scheme.push(member("type", JsonValue::text("http")));
    scheme.push(member("scheme", JsonValue::text("bearer")));
    scheme.push(
        member(
            "description",
            JsonValue::text(
                "TypeDID signed envelope: Ed25519 signature over the querygraph-typedid-signing-v1 payload, verifiable against the did:key verification method carried in the envelope. The sender must equal that signing DID. Denials are receipts, not errors.",
            ),
        ),
    );
    let ghost sv = scheme@;
    let scheme = object(scheme);
    assert(crate::json::members(sv) =~= card_json(base_url@)->Object_0[11].1->Object_0[0].1->Object_0);
    let mut schemes: Vec<(String, JsonValue)> = Vec::new();
    schemes.push(member("typedid", scheme));
    let ghost ssv = schemes@;
    let schemes = object(schemes);
    assert(crate::json::members(ssv) =~= card_json(base_url@)->Object_0[11].1->Object_0);
    let mut e: Vec<(String, JsonValue)> = Vec::new();
    e.push(member("protocolVersion", JsonValue::text(A2A_PROTOCOL_VERSION)));
    e.push(member("name", JsonValue::text("QueryGraph Navigator")));
    e.push(
        member(
            "description",
            JsonValue::text(
                "Governed semantic-layer agent: builds four-layer semantic bundles (Croissant, CDIF, DID, ODRL), answers over RBAC+ODRL-gated lakehouse data with signed TypeDID envelopes, and emits an OpenLineage evidence chain anchored by Ed25519 attestations.",
            ),
        ),
    );
    e.push(member("url", JsonValue::text(url.as_str())));
    e.push(member("preferredTransport", JsonValue::text("HTTP+JSON")));
    e.push(member("provider", provider));
    e.push(member("version", JsonValue::text("0.1.0")));
    e.push(member("capabilities", caps));
    e.push(member("defaultInputModes", one_text("application/json")));
    e.push(member("defaultOutputModes", one_text("application/json")));
    e.push(member("skills", skills_value()));
    e.push(member("securitySchemes", schemes));
    let ghost ev = e@;
    let r = object(e);
    assert(crate::json::members(ev) =~= card_json(base_url@)->Object_0);
    r
}

} // verus!
