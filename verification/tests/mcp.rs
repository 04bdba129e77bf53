use querygraph::json::{JsonNumber, JsonValue};
use querygraph::mcp::http::decode_header;
use querygraph::mcp::modern::{CAPABILITIES_KEY, VERSION, VERSION_KEY};
use querygraph::mcp::server::{tool_definition_ready, Handled, McpServer};
use querygraph::mcp::session::{registry_import_check, Incoming, MCP_PROTOCOL_VERSION};
use querygraph::mcp::store::HANDLE_TTL_MS;
use querygraph::mcp::transport::{Admission, InFlight, MAX_IN_FLIGHT};
use serde_json::Value;

fn to_json(v: &Value) -> JsonValue {
    match v {
        Value::Null => JsonValue::Null,
        Value::Bool(b) => JsonValue::Bool(*b),
        Value::Number(n) => {
            if let Some(u) = n.as_u64() {
                JsonValue::Number(JsonNumber::PosInt(u))
            } else if let Some(i) = n.as_i64() {
                JsonValue::Number(JsonNumber::NegInt(i))
            } else {
                JsonValue::Number(JsonNumber::Float(n.to_string()))
            }
        }
        Value::String(s) => JsonValue::String(s.clone()),
        Value::Array(items) => JsonValue::Array(items.iter().map(to_json).collect()),
        Value::Object(m) => {
            JsonValue::Object(m.iter().map(|(k, v)| (k.clone(), to_json(v))).collect())
        }
    }
}

fn from_json(v: &JsonValue) -> Value {
    match v {
        JsonValue::Null => Value::Null,
        JsonValue::Bool(b) => Value::Bool(*b),
        JsonValue::Number(JsonNumber::PosInt(u)) => Value::from(*u),
        JsonValue::Number(JsonNumber::NegInt(i)) => Value::from(*i),
        JsonValue::Number(JsonNumber::Float(t)) => serde_json::from_str(t).unwrap(),
        JsonValue::String(s) => Value::String(s.clone()),
        JsonValue::Array(items) => Value::Array(items.iter().map(from_json).collect()),
        JsonValue::Object(entries) => {
            let mut m = serde_json::Map::new();
            for (k, v) in entries {
                if !m.contains_key(k) {
                    m.insert(k.clone(), from_json(v));
                }
            }
            Value::Object(m)
        }
    }
}

fn parse(text: &str) -> Value {
    serde_json::from_str(text).unwrap()
}

fn line(server: &mut McpServer, text: &str, now: u64) -> Handled {
    let message = match serde_json::from_str::<Value>(text) {
        Ok(v) => Ok(to_json(&v)),
        Err(e) => Err(e.to_string()),
    };
    server.handle_line(text.len(), message, now)
}

fn call_at(server: &mut McpServer, text: &str, now: u64) -> Value {
    match line(server, text, now) {
        Handled::Reply(v) => from_json(&v),
        Handled::Silent => panic!("request gets a response"),
        Handled::RunTool(_) => panic!("request gets a response, not a tool run"),
    }
}

fn call(server: &mut McpServer, text: &str) -> Value {
    call_at(server, text, 0)
}

fn tool(name: &str) -> JsonValue {
    to_json(&parse(&format!(
        r#"{{"name":"{name}","description":"{name}","inputSchema":{{"type":"object","properties":{{}}}}}}"#
    )))
}

fn tools() -> Vec<JsonValue> {
    [
        "search_semantic_models",
        "answer_question",
        "import_semantic_model",
        "validate_pinax",
        "discover_pinax_ontology",
    ]
    .iter()
    .map(|n| tool(n))
    .collect()
}

fn server_with_tools() -> McpServer {
    let tools = tools();
    assert!(tools.iter().all(tool_definition_ready));
    McpServer::new().with_tool_definitions(tools)
}

fn ready_server() -> McpServer {
    let mut server = server_with_tools();
    let response = call(
        &mut server,
        &format!(
            r#"{{"jsonrpc":"2.0","id":0,"method":"initialize","params":{{"protocolVersion":"{MCP_PROTOCOL_VERSION}","capabilities":{{}},"clientInfo":{{"name":"test","version":"1"}}}}}}"#
        ),
    );
    assert!(response.get("error").is_none());
    assert!(matches!(
        line(&mut server, r#"{"jsonrpc":"2.0","method":"notifications/initialized"}"#, 0),
        Handled::Silent
    ));
    server
}

fn modern_request(method: &str, params: &str) -> Value {
    let mut params = parse(params);
    params["_meta"] = parse(&format!(r#"{{"{VERSION_KEY}":"{VERSION}","{CAPABILITIES_KEY}":{{}}}}"#));
    let mut request = parse(r#"{"jsonrpc":"2.0","id":1}"#);
    request["method"] = Value::String(method.to_string());
    request["params"] = params;
    request
}

#[test]
fn unknown_method_and_unknown_tool_are_reported() {
    let mut server = ready_server();
    let missing = call(&mut server, r#"{"jsonrpc": "2.0", "id": 1, "method": "resources/list"}"#);
    assert_eq!(missing["error"]["code"], -32601);
    let unknown_tool = call(
        &mut server,
        r#"{"jsonrpc": "2.0", "id": 2, "method": "tools/call", "params": {"name": "no_such_tool", "arguments": {}}}"#,
    );
    assert_eq!(unknown_tool["error"]["code"], -32602);
}

#[test]
fn tools_require_the_completed_handshake() {
    let mut server = server_with_tools();
    let request = r#"{"jsonrpc":"2.0","id":1,"method":"tools/list"}"#;
    assert_eq!(call(&mut server, request)["error"]["code"], -32002);
    call(
        &mut server,
        r#"{"jsonrpc":"2.0","id":2,"method":"initialize","params":{"protocolVersion":"future-version","capabilities":{},"clientInfo":{"name":"test","version":"1"}}}"#,
    );
    assert_eq!(call(&mut server, request)["error"]["code"], -32002);
    line(&mut server, r#"{"jsonrpc":"2.0","method":"notifications/initialized"}"#, 0);
    assert!(call(&mut server, request)["result"]["tools"].is_array());
}

#[test]
fn malformed_requests_are_not_silently_treated_as_notifications() {
    let mut server = ready_server();
    for request in [
        "[]",
        "42",
        r#"{"method":"ping"}"#,
        r#"{"jsonrpc":"2.0","id":{},"method":"ping"}"#,
        r#"{"jsonrpc":"2.0","id":1,"method":"ping","params":[]}"#,
    ] {
        assert_eq!(call(&mut server, request)["error"]["code"], -32600);
    }
    assert_eq!(
        call(&mut server, r#"{"jsonrpc":"2.0","id":null,"method":"ping"}"#)["result"],
        parse("{}")
    );
}

#[test]
fn modern_requests_need_no_handshake_and_never_inherit_metadata() {
    let mut server = server_with_tools();
    let response = call(&mut server, &modern_request("server/discover", "{}").to_string());
    assert_eq!(response["result"]["resultType"], "complete");
    assert_eq!(response["result"]["supportedVersions"], parse(&format!(r#"["{VERSION}"]"#)));
    assert_eq!(response["result"]["ttlMs"], 0);
    assert_eq!(response["result"]["cacheScope"], "public");
    assert_eq!(
        call(&mut server, &modern_request("ping", "{}").to_string())["error"]["code"],
        -32601
    );
    let tools = call(&mut server, &modern_request("tools/list", "{}").to_string());
    assert!(tools["result"]["tools"]
        .as_array()
        .unwrap()
        .iter()
        .any(|tool| tool["name"] == "discover_pinax_ontology"));
    let mut missing = modern_request("tools/list", "{}");
    missing["params"]["_meta"].as_object_mut().unwrap().remove(CAPABILITIES_KEY);
    assert_eq!(call(&mut server, &missing.to_string())["error"]["code"], -32602);
    let mut wrong = modern_request("tools/list", "{}");
    wrong["params"]["_meta"][VERSION_KEY] = Value::String("2099-01-01".to_string());
    let response = call(&mut server, &wrong.to_string());
    assert_eq!(response["error"]["code"], -32022);
    assert_eq!(response["error"]["data"]["supported"], parse(&format!(r#"["{VERSION}"]"#)));
    let mut null = modern_request("ping", "{}");
    null["id"] = Value::Null;
    let response = call(&mut server, &null.to_string());
    assert_eq!(response["error"]["code"], -32600);
    assert!(response.get("id").is_none());
    assert_eq!(
        call(&mut server, r#"{"jsonrpc":"2.0","id":2,"method":"tools/list"}"#)["error"]["code"],
        -32002
    );
}

#[test]
fn encoded_names_are_decoded_once_without_normalizing_content() {
    assert_eq!(decode_header("=?base64?SGVsbG8sIOS4lueVjA==?="), Some("Hello, 世界".into()));
    assert_eq!(decode_header("=?base64?bGluZTEKbGluZTI=?="), Some("line1\nline2".into()));
    assert_eq!(decode_header(" padded "), None);
    assert_eq!(decode_header("=?base64?bad!?="), None);
}

#[test]
fn plain_header_values_are_kept_verbatim() {
    assert_eq!(decode_header("tools/list"), Some("tools/list".into()));
    assert_eq!(decode_header(""), Some("".into()));
    assert_eq!(decode_header("=?base64?bm90IHV0Zjj/?="), None);
}

#[test]
fn initialize_negotiates_and_is_answered_once() {
    let mut server = server_with_tools();
    let init = call(
        &mut server,
        &format!(
            r#"{{"jsonrpc":"2.0","id":1,"method":"initialize","params":{{"protocolVersion":"{MCP_PROTOCOL_VERSION}","capabilities":{{}},"clientInfo":{{"name":"test","version":"1"}}}}}}"#
        ),
    );
    assert_eq!(init["result"]["protocolVersion"], MCP_PROTOCOL_VERSION);
    assert_eq!(init["result"]["serverInfo"]["name"], "querygraph");
    let again = call(
        &mut server,
        r#"{"jsonrpc":"2.0","id":2,"method":"initialize","params":{"protocolVersion":"2024-11-05","capabilities":{}}}"#,
    );
    assert!(again.get("error").is_some());
    assert!(!server.is_ready());
    line(&mut server, r#"{"jsonrpc":"2.0","method":"notifications/initialized"}"#, 0);
    assert!(server.is_ready());
    let listed = call(&mut server, r#"{"jsonrpc":"2.0","id":3,"method":"tools/list"}"#);
    let names: Vec<&str> = listed["result"]["tools"]
        .as_array()
        .unwrap()
        .iter()
        .map(|t| t["name"].as_str().unwrap())
        .collect();
    assert!(names.contains(&"answer_question"));
    assert!(names.contains(&"import_semantic_model"));
    assert!(names.contains(&"validate_pinax"));
}

#[test]
fn legacy_sessions_negotiate_their_revision_and_tool_calls_are_handed_over() {
    let mut server = server_with_tools();
    let init = call(
        &mut server,
        r#"{"jsonrpc":"2.0","id":1,"method":"initialize","params":{"protocolVersion":"2024-11-05","capabilities":{},"clientInfo":{"name":"legacy","version":"1"}}}"#,
    );
    assert_eq!(init["result"]["protocolVersion"], "2024-11-05");
    line(&mut server, r#"{"jsonrpc":"2.0","method":"notifications/initialized"}"#, 0);
    match line(
        &mut server,
        r#"{"jsonrpc":"2.0","id":2,"method":"tools/call","params":{"name":"search_semantic_models","arguments":{"term":"energy"}}}"#,
        0,
    ) {
        Handled::RunTool(run) => {
            assert_eq!(run.name, "search_semantic_models");
            assert!(!run.stateless);
            assert_eq!(from_json(&run.arguments), parse(r#"{"term":"energy"}"#));
            let done = server.finish_tool(run.id, Ok((to_json(&parse(r#"{"matches":[]}"#)), "ok".into())));
            let done = from_json(&done);
            assert!(done["result"].get("structuredContent").is_none());
            assert_eq!(done["result"]["isError"], false);
        }
        _ => panic!("tool call is handed over"),
    }
}

#[test]
fn oversized_and_unparsable_lines_are_refused() {
    let mut server = ready_server();
    let text = r#"{"jsonrpc":"2.0","id":7,"method":"ping"}"#;
    let response = match server.handle_line(
        querygraph::mcp::session::MAX_MCP_MESSAGE_BYTES + 1,
        Ok(to_json(&parse(text))),
        0,
    ) {
        Handled::Reply(v) => from_json(&v),
        _ => panic!("oversized input is answered"),
    };
    assert_eq!(response["error"]["code"], -32600);
    let response = match server.handle_line(5, Err("expected value".into()), 0) {
        Handled::Reply(v) => from_json(&v),
        _ => panic!("parse errors are answered"),
    };
    assert_eq!(response["error"]["code"], -32700);
}

#[test]
fn explicit_handles_select_imports_and_expire() {
    let mut server = server_with_tools();
    let structured = to_json(&parse(r#"{"imported":"energy_semantic_model"}"#));
    let document = to_json(&parse(r#"{"name":"Energy"}"#));
    let imported = server
        .import_model(structured, "energy_semantic_model".into(), document, 17, 1000)
        .unwrap();
    let imported = from_json(&imported);
    let handle = imported["model_handle"].as_str().unwrap().to_string();
    assert_eq!(handle.len(), 36);
    for (i, c) in handle.chars().enumerate() {
        if [8, 13, 18, 23].contains(&i) {
            assert_eq!(c, '-');
        } else {
            assert!(c.is_ascii_digit() || ('a'..='f').contains(&c));
        }
    }
    assert_eq!(handle.as_bytes()[14], b'4');
    assert!(b"89ab".contains(&handle.as_bytes()[19]));
    assert_eq!(imported["expires_in_seconds"], 3600);
    let search = |handles: &str| {
        modern_request(
            "tools/call",
            &format!(
                r#"{{"name":"search_semantic_models","arguments":{{"term":"cost","model_handles":{handles}}}}}"#
            ),
        )
        .to_string()
    };
    match line(&mut server, &search(&format!(r#"["{handle}"]"#)), 2000) {
        Handled::RunTool(run) => {
            assert!(run.stateless);
            assert_eq!(run.models.len(), 1);
            assert_eq!(run.models[0].0, "energy_semantic_model");
            assert_eq!(from_json(&run.arguments), parse(r#"{"term":"cost"}"#));
        }
        _ => panic!("a live handle selects its model"),
    }
    match line(&mut server, &search("[]"), 2000) {
        Handled::RunTool(run) => assert!(run.models.is_empty()),
        _ => panic!("no handles select no models"),
    }
    let guessed = call_at(&mut server, &search(r#"["guessed"]"#), 2000);
    assert_eq!(guessed["result"]["isError"], true);
    let expired = call_at(&mut server, &search(&format!(r#"["{handle}"]"#)), 1000 + HANDLE_TTL_MS);
    assert_eq!(expired["result"]["isError"], true);
}

#[test]
fn in_flight_requests_are_bounded_and_unique() {
    let mut flights = InFlight::new();
    let id = to_json(&parse("1"));
    assert!(matches!(flights.admit_request(&id, true), Admission::Spawn));
    assert!(matches!(flights.admit_request(&id, false), Admission::Answer));
    flights.start(id.deep_clone(), 10);
    assert!(flights.contains(&id));
    match flights.admit_request(&id, false) {
        Admission::Refuse(v) => assert_eq!(from_json(&v)["error"]["code"], -32600),
        _ => panic!("an ID in flight is refused"),
    }
    assert_eq!(flights.cancel(&id), Some(10));
    assert!(!flights.contains(&id));
    assert_eq!(flights.cancel(&id), None);
    for n in 0..MAX_IN_FLIGHT as u64 {
        let id = to_json(&Value::from(n + 100));
        assert!(matches!(flights.admit_request(&id, true), Admission::Spawn));
        flights.start(id, n);
    }
    assert_eq!(flights.len(), MAX_IN_FLIGHT);
    match flights.admit_request(&to_json(&Value::from(5)), true) {
        Admission::Refuse(v) => assert_eq!(from_json(&v)["error"]["code"], -32000),
        _ => panic!("a full table refuses governed requests"),
    }
    assert!(matches!(flights.admit_request(&to_json(&Value::from(5)), false), Admission::Answer));
    match flights.admit_stateless(&to_json(&Value::from(5)), false) {
        Admission::Refuse(v) => assert_eq!(from_json(&v)["error"]["code"], -32600),
        _ => panic!("a full table refuses stateless requests"),
    }
    flights.finish(&to_json(&Value::from(100)), 0);
    assert_eq!(flights.len(), MAX_IN_FLIGHT - 1);
}

#[test]
fn tool_definitions_must_be_objects() {
    assert!(!tool_definition_ready(&to_json(&parse("[]"))));
    assert!(tool_definition_ready(&to_json(&parse(r#"{"name":"ping_tool"}"#))));
    assert!(!tool_definition_ready(&to_json(&parse(
        r#"{"name":"answer_question","inputSchema":{"properties":[]}}"#
    ))));
}

#[test]
fn transports_can_classify_and_answer_separately() {
    let mut server = server_with_tools();
    let text = r#"{"jsonrpc":"2.0","id":5,"method":"ping"}"#;
    match server.parse_line(text.len(), Ok(to_json(&parse(text)))) {
        Incoming::Request { id, method, params } => {
            assert_eq!(method, "ping");
            match server.answer_request(id, &method, &params) {
                Handled::Reply(v) => assert_eq!(from_json(&v)["result"], parse("{}")),
                _ => panic!("ping is answered"),
            }
        }
        _ => panic!("a ping is a request"),
    }
    match server.parse_line(10, Ok(to_json(&parse(r#"{"jsonrpc":"2.0","method":"notifications/cancelled","params":{"requestId":3}}"#)))) {
        Incoming::Cancelled(id) => assert_eq!(from_json(&id), parse("3")),
        _ => panic!("a cancellation names its request"),
    }
}

#[test]
fn governed_tools_fail_closed_without_a_registry_service() {
    let mut server = ready_server();
    let params = to_json(&parse(r#"{"name":"discover_pinax_ontology","arguments":{}}"#));
    assert!(server.governed_request("tools/call", &params));
    assert!(!server.has_registry_service());
    let result = from_json(&server.registry_unavailable().unwrap());
    assert_eq!(result["isError"], true);
    let server = server.with_registry_service();
    assert!(server.has_registry_service());
    assert!(server.registry_unavailable().is_none());
    let answered = from_json(&server.finish_registry_call(Err("registry scan denied".into())));
    assert_eq!(answered["isError"], true);
    assert_eq!(answered["content"][0]["text"], "registry scan denied");
}

#[test]
fn session_registry_limits_count_models_and_bytes() {
    let empty: Vec<(String, u64)> = Vec::new();
    assert!(registry_import_check(&empty, "energy", 17).is_ok());
    assert!(registry_import_check(&empty, "energy", 64 * 1024 * 1024).is_ok());
    let too_big = registry_import_check(&empty, "energy", 64 * 1024 * 1024 + 1).unwrap_err();
    assert_eq!(too_big.code, -32602);
    assert_eq!(too_big.message, "session model byte limit exceeded");

    let full: Vec<(String, u64)> = (0..128).map(|i| (format!("m{i}"), 10)).collect();
    let refused = registry_import_check(&full, "energy", 10).unwrap_err();
    assert_eq!(refused.code, -32602);
    assert_eq!(refused.message, "session model limit exceeded");
    assert!(registry_import_check(&full, "m7", 10).is_ok());

    let half = 32 * 1024 * 1024;
    let two = vec![("a".to_string(), half), ("b".to_string(), half)];
    assert!(registry_import_check(&two, "a", half).is_ok());
    assert_eq!(
        registry_import_check(&two, "c", 1).unwrap_err().message,
        "session model byte limit exceeded"
    );
}
