use querygraph::agent::ollama::{reply_text, OllamaChatClient, PolicyDecision, TypeDidOllamaPolicy};
use querygraph::json::{JsonNumber, JsonValue};
use querygraph::lakecat::model::{LakeCatImportTable, LakeCatImportView};
use querygraph::mcp::http::{
    failure_status, http_step, origin_allowed, precheck, reply_status, HttpStep,
};
use querygraph::mcp::modern::{CAPABILITIES_KEY, VERSION, VERSION_KEY};
use querygraph::mcp::session::ProtocolVersion;
use serde_json::Value;

fn to_json(v: &Value) -> JsonValue {
    match v {
        Value::Null => JsonValue::Null,
        Value::Bool(b) => JsonValue::Bool(*b),
        Value::Number(n) => {
            if let Some(u) = n.as_u64() {
                JsonValue::Number(JsonNumber::PosInt(u))
            } else if let Some(i) = n.as_i64() {
                JsonValue::Number(JsonNumber::NegInt(i))
            } else {
                JsonValue::Number(JsonNumber::Float(n.to_string()))
            }
        }
        Value::String(s) => JsonValue::String(s.clone()),
        Value::Array(items) => JsonValue::Array(items.iter().map(to_json).collect()),
        Value::Object(m) => {
            JsonValue::Object(m.iter().map(|(k, v)| (k.clone(), to_json(v))).collect())
        }
    }
}

fn parse(text: &str) -> JsonValue {
    to_json(&serde_json::from_str(text).unwrap())
}

fn headers(pairs: &[(&str, &str)]) -> Vec<(String, Option<String>)> {
    pairs.iter().map(|(k, v)| (k.to_string(), Some(v.to_string()))).collect()
}

fn message(method: &str) -> JsonValue {
    parse(&format!(
        r#"{{"jsonrpc":"2.0","id":1,"method":"{method}","params":{{"_meta":{{"{VERSION_KEY}":"{VERSION}","{CAPABILITIES_KEY}":{{}}}}}}}}"#
    ))
}

fn code_of(body: &JsonValue) -> Option<i64> {
    match body.get("error")?.get("code")? {
        JsonValue::Number(JsonNumber::NegInt(n)) => Some(*n),
        JsonValue::Number(JsonNumber::PosInt(n)) => Some(*n as i64),
        _ => None,
    }
}

#[test]
fn posts_need_json_bodies_and_both_response_types() {
    let good = headers(&[("content-type", "application/json; charset=utf-8")]);
    assert_eq!(precheck(true, &good, true, true), None);
    assert_eq!(precheck(false, &good, true, true), Some(429));
    assert_eq!(precheck(true, &headers(&[("content-type", "text/plain")]), true, true), Some(415));
    assert_eq!(precheck(true, &headers(&[]), true, true), Some(415));
    assert_eq!(precheck(true, &good, true, false), Some(406));
}

#[test]
fn origins_are_admitted_only_from_the_allow_list() {
    let allowed = vec!["https://console.example".to_string()];
    assert!(origin_allowed(&headers(&[]), &allowed));
    assert!(origin_allowed(&headers(&[("origin", "https://console.example")]), &allowed));
    assert!(!origin_allowed(&headers(&[("origin", "https://evil.example")]), &allowed));
}

#[test]
fn discovery_over_http_is_answered_in_line() {
    let h = headers(&[("mcp-protocol-version", VERSION), ("mcp-method", "server/discover")]);
    match http_step(&h, &vec![], Some(message("server/discover"))) {
        HttpStep::Answer(request) => assert_eq!(request.method, "server/discover"),
        _ => panic!("discovery is answered"),
    }
}

#[test]
fn http_refusals_carry_their_codes_and_statuses() {
    let missing = headers(&[("mcp-protocol-version", VERSION)]);
    match http_step(&missing, &vec![], Some(message("server/discover"))) {
        HttpStep::Reply { status, body } => {
            assert_eq!(status, 400);
            assert_eq!(code_of(&body), Some(-32020));
        }
        _ => panic!("a missing method header is refused"),
    }
    match http_step(&missing, &vec![], None) {
        HttpStep::Reply { status, body } => {
            assert_eq!(status, 400);
            assert_eq!(code_of(&body), Some(-32700));
        }
        _ => panic!("unparsable bodies are refused"),
    }
    let notification = parse(r#"{"jsonrpc":"2.0","method":"ping"}"#);
    match http_step(&missing, &vec![], Some(notification)) {
        HttpStep::Reply { body, .. } => assert_eq!(code_of(&body), Some(-32600)),
        _ => panic!("notifications are refused"),
    }
    let h = headers(&[("mcp-protocol-version", VERSION), ("mcp-method", "ping")]);
    match http_step(&h, &vec![], Some(message("ping"))) {
        HttpStep::Reply { status, body } => {
            assert_eq!(status, 404);
            assert_eq!(code_of(&body), Some(-32601));
        }
        _ => panic!("unknown methods are refused"),
    }
    assert_eq!(failure_status(-32603), 500);
    assert_eq!(failure_status(-32602), 400);
    assert_eq!(reply_status(&parse(r#"{"result":{}}"#)), 200);
    assert_eq!(reply_status(&parse(r#"{"error":{"code":-32601}}"#)), 404);
}

#[test]
fn protocol_versions_negotiate_by_name() {
    assert_eq!(ProtocolVersion::negotiate("2024-11-05").as_str(), "2024-11-05");
    assert_eq!(ProtocolVersion::negotiate("2025-06-18").as_str(), "2025-06-18");
    assert_eq!(ProtocolVersion::negotiate("future-version").as_str(), "2025-11-25");
}

#[test]
fn ollama_chats_are_single_user_messages() {
    let client = OllamaChatClient::new("http://localhost:11434/", "llama3");
    assert_eq!(client.chat_url(), "http://localhost:11434/api/chat");
    let body = client.chat_request("hi");
    assert_eq!(body.get("model").unwrap().as_str(), Some("llama3"));
    assert!(matches!(body.get("stream"), Some(JsonValue::Bool(false))));
    let reply = parse(r#"{"message":{"role":"assistant","content":"hello"}}"#);
    assert_eq!(reply_text(&reply), "hello");
    assert_eq!(reply_text(&parse(r#"{"error":"x"}"#)), "");
}

#[test]
fn lakecat_projections_pick_their_names() {
    let table = LakeCatImportTable::from_projection(
        "lakecat:table:local:default:events",
        &parse(r#"{"name":"events"}"#),
        &parse(r#"{"dct:title":"Events"}"#),
        &parse(r#"{"semantic_model":{"name":"events_model"}}"#),
        &parse(r#"{"uid":"policy:events"}"#),
    );
    assert_eq!(table.croissant_name.as_deref(), Some("events"));
    assert_eq!(table.cdif_title.as_deref(), Some("Events"));
    assert_eq!(table.osi_model.as_deref(), Some("events_model"));
    assert_eq!(table.odrl_policy.as_deref(), Some("policy:events"));
    let preferred = LakeCatImportTable::from_projection(
        "t",
        &parse("{}"),
        &parse("{}"),
        &parse("{}"),
        &parse(r#"{"@id":"a","uid":"b"}"#),
    );
    assert_eq!(preferred.odrl_policy.as_deref(), Some("a"));
    assert_eq!(preferred.croissant_name, None);
    let view = LakeCatImportView::from_projection(
        "lakecat:view:local:default:events_recent",
        "events_recent",
        2,
        "spark",
        &parse(r#"{"view":{"name":"recent"}}"#),
    );
    assert_eq!(view.osi_model.as_deref(), Some("recent"));
    assert_eq!(view.view_version, 2);
}

#[test]
fn the_prompt_policy_grants_only_its_requester_two_actions() {
    let policy = TypeDidOllamaPolicy {
        allowed_subject: "did:key:zReq".into(),
        allowed_resource: "querygraph/dataverse/prompt/ab".into(),
    };
    assert_eq!(policy.check("did:key:zReq", "ai:infer", "querygraph/dataverse/prompt/ab"), PolicyDecision::Allow);
    assert_eq!(
        policy.check("did:key:zReq", "read_sensitive", "querygraph/dataverse/prompt/ab"),
        PolicyDecision::Allow
    );
    assert_eq!(
        policy.check("did:key:zOther", "ai:infer", "querygraph/dataverse/prompt/ab"),
        PolicyDecision::Deny("did:key:zOther may not ai:infer querygraph/dataverse/prompt/ab".into())
    );
    assert_eq!(
        policy.check("did:key:zReq", "write", "querygraph/dataverse/prompt/ab"),
        PolicyDecision::Deny("did:key:zReq may not write querygraph/dataverse/prompt/ab".into())
    );
}
