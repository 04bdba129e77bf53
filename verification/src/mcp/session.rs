//! The handshake-based revisions over stdio: message checks, the session
//! lifecycle and the legacy methods.
use vstd::prelude::*;
use crate::json::{array, member, member_at, models, object, opt_model, without_key, Json, JsonValue};
use crate::mcp::modern::{self, parse_check, recognizes, recognizes_spec, Request};
use crate::text::{cat, owned, str_eq};

verus! {

/// Latest handshake-based revision, kept for existing stdio callers.
pub const MCP_PROTOCOL_VERSION: &'static str = "2025-11-25";

/// Largest accepted JSON-RPC message, in bytes.
pub const MAX_MCP_MESSAGE_BYTES: usize = 33554432;

/// The server's name in `serverInfo`.
pub const SERVER_NAME: &'static str = "querygraph";

/// The server's version in `serverInfo`.
pub const SERVER_VERSION: &'static str = "0.1.0";

/// A negotiated handshake revision.
#[derive(Debug, Clone, Copy, PartialEq, Eq)]
pub enum ProtocolVersion {
    Legacy,
    Structured,
    Current,
}

/// The revision that a requested version negotiates to.
pub open spec fn negotiate_spec(requested: Seq<char>) -> ProtocolVersion {
    if requested == "2024-11-05"@ {
        ProtocolVersion::Legacy
    } else if requested == "2025-06-18"@ {
        ProtocolVersion::Structured
    } else {
        ProtocolVersion::Current
    }
}

/// The version text of a revision.
pub open spec fn version_name(v: ProtocolVersion) -> Seq<char> {
    match v {
        ProtocolVersion::Legacy => "2024-11-05"@,
        ProtocolVersion::Structured => "2025-06-18"@,
        ProtocolVersion::Current => "2025-11-25"@,
    }
}

impl ProtocolVersion {
    /// The revision for a client's requested version: the two older
    /// revisions by name, the current one for anything else.
    pub fn negotiate(requested: &str) -> (r: ProtocolVersion)
        ensures
            r == negotiate_spec(requested@),
    {
        if str_eq(requested, "2024-11-05") {
            ProtocolVersion::Legacy
        } else if str_eq(requested, "2025-06-18") {
            ProtocolVersion::Structured
        } else {
            ProtocolVersion::Current
        }
    }

    /// The version text of the revision.
    pub fn as_str(self) -> (r: &'static str)
        ensures
            r@ == version_name(self),
    {
        match self {
            ProtocolVersion::Legacy => "2024-11-05",
            ProtocolVersion::Structured => "2025-06-18",
            ProtocolVersion::Current => "2025-11-25",
        }
    }
}

/// Where a stdio session stands in its handshake.
#[derive(Debug, Clone, Copy, PartialEq, Eq)]
pub enum SessionState {
    Uninitialized,
    Initializing(ProtocolVersion),
    Ready(ProtocolVersion),
}

/// A JSON-RPC error of the legacy methods.
pub struct RpcError {
    pub code: i64,
    pub message: String,
}

impl RpcError {
    /// `-32602`, invalid parameters.
    pub fn invalid_params(message: &str) -> (r: RpcError)
        ensures
            r.code == -32602,
            r.message@ == message@,
    {
        RpcError { code: -32602, message: owned(message) }
    }

    /// `-32603`, internal error.
    pub fn internal(message: &str) -> (r: RpcError)
        ensures
            r.code == -32603,
            r.message@ == message@,
    {
        RpcError { code: -32603, message: owned(message) }
    }
}

/// `{"jsonrpc":"2.0","id":id,"error":{"code":code,"message":message}}`.
pub open spec fn failure_model(id: Json, code: int, message: Seq<char>) -> Json {
    Json::Object(
        seq![
            ("jsonrpc"@, Json::Str("2.0"@)),
            ("id"@, id),
            ("error"@, Json::Object(seq![("code"@, Json::Int(code)), ("message"@, Json::Str(message))])),
        ],
    )
}

/// `{"jsonrpc":"2.0","id":id,"result":result}`.
pub open spec fn success_model(id: Json, result: Json) -> Json {
    Json::Object(seq![("jsonrpc"@, Json::Str("2.0"@)), ("id"@, id), ("result"@, result)])
}

/// The JSON-RPC error response for a request ID.
pub fn rpc_failure(id: JsonValue, code: i64, message: &str) -> (r: JsonValue)
    ensures
        r.model() == failure_model(id.model(), code as int, message@),
{
    let ghost idm = id.model();
    let mut err: Vec<(String, JsonValue)> = Vec::new();
    err.push(member("code", JsonValue::integer(code)));
    err.push(member("message", JsonValue::text(message)));
    let ghost ev = err@;
    let error = object(err);
    let mut entries: Vec<(String, JsonValue)> = Vec::new();
    entries.push(member("jsonrpc", JsonValue::text("2.0")));
    entries.push(member("id", id));
    entries.push(member("error", error));
    proof {
        assert(crate::json::members(ev) =~= seq![
            ("code"@, Json::Int(code as int)),
            ("message"@, Json::Str(message@)),
        ]);
    }
    let ghost v = entries@;
    let r = object(entries);
    proof {
        assert(crate::json::members(v) =~= seq![
            ("jsonrpc"@, Json::Str("2.0"@)),
            ("id"@, idm),
            ("error"@, Json::Object(seq![("code"@, Json::Int(code as int)), ("message"@, Json::Str(message@))])),
        ]);
    }
    r
}

/// The JSON-RPC success response for a request ID.
pub fn rpc_success(id: JsonValue, result: JsonValue) -> (r: JsonValue)
    ensures
        r.model() == success_model(id.model(), result.model()),
{
    let ghost idm = id.model();
    let ghost rm = result.model();
    let mut entries: Vec<(String, JsonValue)> = Vec::new();
    entries.push(member("jsonrpc", JsonValue::text("2.0")));
    entries.push(member("id", id));
    entries.push(member("result", result));
    let ghost v = entries@;
    let r = object(entries);
    proof {
        assert(crate::json::members(v) =~= seq![
            ("jsonrpc"@, Json::Str("2.0"@)),
            ("id"@, idm),
            ("result"@, rm),
        ]);
    }
    r
}

/// The model of a legacy method's outcome.
pub open spec fn outcome_model(r: Result<JsonValue, RpcError>) -> Result<Json, (int, Seq<char>)> {
    match r {
        Ok(v) => Ok(v.model()),
        Err(e) => Err((e.code as int, e.message@)),
    }
}

/// The response to a request: its result, or its error.
pub open spec fn response_model(id: Json, r: Result<Json, (int, Seq<char>)>) -> Json {
    match r {
        Ok(v) => success_model(id, v),
        Err(e) => failure_model(id, e.0, e.1),
    }
}

/// Encodes the outcome of a request as its response.
pub fn encode_response(id: JsonValue, result: Result<JsonValue, RpcError>) -> (r: JsonValue)
    ensures
        r.model() == response_model(id.model(), outcome_model(result)),
{
    match result {
        Ok(v) => rpc_success(id, v),
        Err(e) => rpc_failure(id, e.code, e.message.as_str()),
    }
}

/// A message the checks accept: an object with `"jsonrpc": "2.0"`, a
/// string `method`, `params` absent or an object, and `id` absent, null, a
/// string or an integer.
pub open spec fn well_formed(m: Json) -> bool {
    &&& m.is_object()
    &&& m.at("jsonrpc"@) == Json::Str("2.0"@)
    &&& m.at("method"@).is_string()
    &&& (m.get("params"@) matches Some(p) ==> p.is_object())
    &&& (m.get("id"@) matches Some(i) ==> i.is_null() || i.is_id())
}

/// A message's parameters, or an empty object.
pub open spec fn params_of(m: Json) -> Json {
    match m.get("params"@) {
        Some(p) => p,
        None => Json::Object(Seq::empty()),
    }
}

/// A message's method.
pub open spec fn method_of(m: Json) -> Seq<char> {
    match m.at("method"@).as_str() {
        Some(s) => s,
        None => Seq::empty(),
    }
}

/// A well-formed cancellation names a request ID and, if anything, a
/// string reason.
pub open spec fn is_cancellation(method: Seq<char>, params: Json) -> bool {
    method == "notifications/cancelled"@ && params.at("requestId"@).is_id() && (params.get(
        "reason"@,
    ) matches Some(r) ==> r.is_string())
}

/// What a line is taken for.
pub enum IncomingModel {
    Modern(Json, Seq<char>, Json),
    Cancelled(Json),
    Request(Json, Seq<char>, Json),
    Reply(Json),
    Notification,
}

/// The classification of a line of `bytes` bytes that parsed to `msg`, or
/// failed to parse with the given error text.
pub open spec fn incoming_spec(bytes: nat, msg: Result<Json, Seq<char>>) -> IncomingModel {
    if bytes > MAX_MCP_MESSAGE_BYTES {
        IncomingModel::Reply(failure_model(Json::Null, -32600, "message exceeds size limit"@))
    } else {
        match msg {
            Err(e) => IncomingModel::Reply(failure_model(Json::Null, -32700, "parse error: "@ + e)),
            Ok(m) => if !well_formed(m) {
                IncomingModel::Reply(failure_model(Json::Null, -32600, "invalid request"@))
            } else {
                let method = method_of(m);
                let params = params_of(m);
                match m.get("id"@) {
                    None => if is_cancellation(method, params) {
                        IncomingModel::Cancelled(params.at("requestId"@))
                    } else {
                        IncomingModel::Notification
                    },
                    Some(id) => if recognizes_spec(method, params) {
                        match parse_check(id, params) {
                            Ok(_) => IncomingModel::Modern(id, method, params),
                            Err(e) => IncomingModel::Reply(modern::error_response(e, id)),
                        }
                    } else {
                        IncomingModel::Request(id, method, params)
                    },
                }
            },
        }
    }
}

/// The session after a line: `notifications/initialized` completes a
/// handshake in progress; nothing else changes it.
pub open spec fn session_after_line(
    session: SessionState,
    bytes: nat,
    msg: Result<Json, Seq<char>>,
) -> SessionState {
    match incoming_spec(bytes, msg) {
        IncomingModel::Notification => match (msg, session) {
            (Ok(m), SessionState::Initializing(v)) => if method_of(m) == "notifications/initialized"@ {
                SessionState::Ready(v)
            } else {
                session
            },
            _ => session,
        },
        _ => session,
    }
}

/// The model of a parse outcome.
pub open spec fn parsed_model(message: Result<JsonValue, String>) -> Result<Json, Seq<char>> {
    match message {
        Ok(v) => Ok(v.model()),
        Err(e) => Err(e@),
    }
}

/// What a line is taken for.
pub enum Incoming {
    /// A request of the stateless revision whose metadata checks out.
    Modern(Request),
    /// A cancellation of the request with this ID.
    Cancelled(JsonValue),
    /// A request of the handshake-based revisions.
    Request { id: JsonValue, method: String, params: JsonValue },
    /// A response to write at once.
    Reply(JsonValue),
    /// A notification, which gets no response.
    Notification,
}

impl Incoming {
    pub open spec fn model(&self) -> IncomingModel {
        match self {
            Incoming::Modern(r) => IncomingModel::Modern(r.id.model(), r.method@, r.params.model()),
            Incoming::Cancelled(id) => IncomingModel::Cancelled(id.model()),
            Incoming::Request { id, method, params } => IncomingModel::Request(
                id.model(),
                method@,
                params.model(),
            ),
            Incoming::Reply(v) => IncomingModel::Reply(v.model()),
            Incoming::Notification => IncomingModel::Notification,
        }
    }
}

/// Whether a message passes the checks.
fn check_message(m: &JsonValue) -> (r: bool)
    ensures
        r == well_formed(m.model()),
{
    if !m.is_object() {
        return false;
    }
    let jsonrpc_ok = match member_at(Some(m), "jsonrpc") {
        Some(v) => match v.as_str() {
            Some(s) => str_eq(s, "2.0"),
            None => false,
        },
        None => false,
    };
    let method_ok = match member_at(Some(m), "method") {
        Some(v) => v.is_string(),
        None => false,
    };
    let params_ok = match m.get("params") {
        Some(p) => p.is_object(),
        None => true,
    };
    let id_ok = match m.get("id") {
        Some(i) => i.is_null() || i.is_id(),
        None => true,
    };
    jsonrpc_ok && method_ok && params_ok && id_ok
}

/// The parameters of a well-formed message, or an empty object.
fn message_params(m: &JsonValue) -> (r: JsonValue)
    ensures
        r.model() == params_of(m.model()),
{
    match m.get("params") {
        Some(p) => p.deep_clone(),
        None => {
            let empty: Vec<(String, JsonValue)> = Vec::new();
            proof {
                assert(crate::json::members(empty@) =~= Seq::<(Seq<char>, Json)>::empty());
            }
            object(empty)
        },
    }
}

/// Classifies one line of a stdio session, of `line_bytes` bytes, given
/// what parsing it gave, and completes the handshake on
/// `notifications/initialized`.
pub fn classify_line(session: &mut SessionState, line_bytes: usize, message: Result<JsonValue, String>) -> (r:
    Incoming)
    ensures
        r.model() == incoming_spec(line_bytes as nat, parsed_model(message)),
        *final(session) == session_after_line(*old(session), line_bytes as nat, parsed_model(message)),
{
    let ghost msg = parsed_model(message);
    if line_bytes > MAX_MCP_MESSAGE_BYTES {
        return Incoming::Reply(rpc_failure(JsonValue::Null, -32600, "message exceeds size limit"));
    }
    let m = match message {
        Ok(m) => m,
        Err(e) => {
            let text = cat("parse error: ", e.as_str());
            return Incoming::Reply(rpc_failure(JsonValue::Null, -32700, text.as_str()));
        },
    };
    if !check_message(&m) {
        return Incoming::Reply(rpc_failure(JsonValue::Null, -32600, "invalid request"));
    }
    let method = match member_at(Some(&m), "method") {
        Some(v) => match v.as_str() {
            Some(s) => owned(s),
            None => String::new(),
        },
        None => String::new(),
    };
    let params = message_params(&m);
    match m.get("id") {
        None => {
            let target = member_at(Some(&params), "requestId");
            let target_ok = match target {
                Some(t) => t.is_id(),
                None => false,
            };
            let reason_ok = match params.get("reason") {
                Some(r) => r.is_string(),
                None => true,
            };
            if str_eq(method.as_str(), "notifications/cancelled") && target_ok && reason_ok {
                let t = match target {
                    Some(t) => t.deep_clone(),
                    None => JsonValue::Null,
                };
                return Incoming::Cancelled(t);
            }
            if str_eq(method.as_str(), "notifications/initialized") {
                match *session {
                    SessionState::Initializing(v) => {
                        *session = SessionState::Ready(v);
                    },
                    _ => {},
                }
            }
            Incoming::Notification
        },
        Some(id) => {
            let id = id.deep_clone();
            if recognizes(method.as_str(), &params) {
                let id_copy = id.deep_clone();
                match Request::parse(id, method, params) {
                    Ok(request) => Incoming::Modern(request),
                    Err(error) => Incoming::Reply(error.response(id_copy)),
                }
            } else {
                Incoming::Request { id, method, params }
            }
        },
    }
}

/// The tools that the governed Pinax service answers, asynchronously.
pub open spec fn governed_name(name: Seq<char>) -> bool {
    name == "plan_pinax_scan"@ || name == "execute_pinax_scan"@ || name == "discover_pinax_tables"@
        || name == "discover_pinax_ontology"@
}

/// Whether a tool is one of the governed Pinax tools.
pub fn is_governed_name(name: &str) -> (r: bool)
    ensures
        r == governed_name(name@),
{
    str_eq(name, "plan_pinax_scan") || str_eq(name, "execute_pinax_scan") || str_eq(
        name,
        "discover_pinax_tables",
    ) || str_eq(name, "discover_pinax_ontology")
}

/// Some tool definition carries the name.
pub open spec fn tool_named(tools: Seq<Json>, name: Seq<char>) -> bool {
    exists|i: int| 0 <= i < tools.len() && #[trigger] tools[i].at("name"@) == Json::Str(name)
}

/// Whether some tool definition carries the name.
pub fn find_tool(tools: &Vec<JsonValue>, name: &str) -> (r: bool)
    ensures
        r == tool_named(models(tools@), name@),
{
    let ghost ms = models(tools@);
    let mut i: usize = 0;
    while i < tools.len()
        invariant
            i <= tools@.len(),
            ms == models(tools@),
            forall|j: int| 0 <= j < i ==> #[trigger] ms[j].at("name"@) != Json::Str(name@),
        decreases tools.len() - i,
    {
        let found = match member_at(Some(&tools[i]), "name") {
            Some(v) => match v.as_str() {
                Some(s) => str_eq(s, name),
                None => false,
            },
            None => false,
        };
        assert(ms[i as int] == tools@[i as int].model());
        if found {
            assert(ms[i as int].at("name"@) == Json::Str(name@));
            return true;
        }
        i = i + 1;
    }
    false
}

/// The instructions that `initialize` returns.
pub open spec fn instructions_text() -> Seq<char> {
    "QueryGraph governed semantic layer: import and search semantic models, build four-layer bundles, run the governed multi-agent story, answer questions with signed evidence chains, and verify TypeDID envelopes."@
}

/// The result of `initialize` for a negotiated revision.
pub open spec fn initialize_result(v: ProtocolVersion) -> Json {
    Json::Object(
        seq![
            ("protocolVersion"@, Json::Str(version_name(v))),
            ("capabilities"@, Json::Object(seq![("tools"@, Json::Object(Seq::empty()))])),
            (
                "serverInfo"@,
                Json::Object(
                    seq![("name"@, Json::Str("querygraph"@)), ("version"@, Json::Str("0.1.0"@))],
                ),
            ),
            ("instructions"@, Json::Str(instructions_text())),
        ],
    )
}

/// The tool list as the legacy revision sees it: without output schemas
/// and annotations.
pub open spec fn legacy_tool(t: Json) -> Json {
    without_key(without_key(t, "outputSchema"@), "annotations"@)
}

/// The tool definitions a session lists.
pub open spec fn listed_tools(tools: Seq<Json>, session: SessionState) -> Seq<Json> {
    if session == SessionState::Ready(ProtocolVersion::Legacy) {
        tools.map_values(|t: Json| legacy_tool(t))
    } else {
        tools
    }
}

/// What a legacy method comes to: a result or an error now, or a tool to
/// run.
pub enum DispatchModel {
    Done(Result<Json, (int, Seq<char>)>),
    CallTool(Seq<char>, Json),
}

/// An error outcome.
pub open spec fn fail(code: int, message: Seq<char>) -> DispatchModel {
    DispatchModel::Done(Err((code, message)))
}

/// The checks of `tools/call` before the tool runs: a string name, not a
/// governed tool, object arguments, a listed tool.
pub open spec fn call_tool_spec(tools: Seq<Json>, params: Json) -> DispatchModel {
    let arguments = match params.get("arguments"@) {
        Some(a) => a,
        None => Json::Object(Seq::empty()),
    };
    match params.at("name"@).as_str() {
        None => fail(-32602, "tool name is required"@),
        Some(name) => if governed_name(name) {
            fail(-32602, "governed scan tools require handle_line_async"@)
        } else if !arguments.is_object() {
            fail(-32602, "arguments must be an object"@)
        } else if !tool_named(tools, name) {
            fail(-32602, "unknown tool"@)
        } else {
            DispatchModel::CallTool(name, arguments)
        },
    }
}

/// `initialize` accepts these parameters.
pub open spec fn initialize_params_ok(params: Json) -> bool {
    &&& params.at("protocolVersion"@).is_string()
    &&& params.at("capabilities"@).is_object()
    &&& params.at("clientInfo"@).at("name"@).is_string()
    &&& params.at("clientInfo"@).at("version"@).is_string()
}

/// What a legacy method comes to in a session.
pub open spec fn dispatch_spec(
    session: SessionState,
    tools: Seq<Json>,
    method: Seq<char>,
    params: Json,
) -> DispatchModel {
    if method != "initialize"@ && method != "ping"@ && !(session is Ready) {
        fail(-32002, "session is not initialized"@)
    } else if method == "initialize"@ {
        if !(session is Uninitialized) {
            fail(-32602, "session is already initialized"@)
        } else if !initialize_params_ok(params) {
            fail(-32602, "protocolVersion, capabilities, and clientInfo are required"@)
        } else {
            DispatchModel::Done(
                Ok(initialize_result(negotiate_spec(params.at("protocolVersion"@).as_str()->Some_0))),
            )
        }
    } else if method == "ping"@ {
        DispatchModel::Done(Ok(Json::Object(Seq::empty())))
    } else if method == "tools/list"@ {
        if params.get("cursor"@) is Some {
            fail(-32602, "this tool list has no continuation cursor"@)
        } else {
            DispatchModel::Done(
                Ok(
                    Json::Object(
                        seq![("tools"@, Json::Array(listed_tools(tools, session)))],
                    ),
                ),
            )
        }
    } else if method == "tools/call"@ {
        call_tool_spec(tools, params)
    } else {
        fail(-32601, "method not found: "@ + method)
    }
}

/// The session after a legacy method: a valid `initialize` of a fresh
/// session starts the handshake with the negotiated revision.
pub open spec fn session_after_dispatch(session: SessionState, method: Seq<char>, params: Json) -> SessionState {
    if method == "initialize"@ && session is Uninitialized && initialize_params_ok(params) {
        SessionState::Initializing(negotiate_spec(params.at("protocolVersion"@).as_str()->Some_0))
    } else {
        session
    }
}

/// What a legacy method comes to.
pub enum Dispatch {
    Done(Result<JsonValue, RpcError>),
    CallTool { name: String, arguments: JsonValue },
}

impl Dispatch {
    pub open spec fn model(&self) -> DispatchModel {
        match self {
            Dispatch::Done(r) => DispatchModel::Done(outcome_model(*r)),
            Dispatch::CallTool { name, arguments } => DispatchModel::CallTool(name@, arguments.model()),
        }
    }
}

/// A string member's text, if the member is a string.
fn string_at<'a>(v: &'a JsonValue, key: &str) -> (r: Option<&'a str>)
    ensures
        match r {
            Some(s) => v.model().at(key@).as_str() == Some(s@),
            None => v.model().at(key@).as_str() is None,
        },
{
    match member_at(Some(v), key) {
        Some(m) => m.as_str(),
        None => None,
    }
}

/// The result of `initialize`.
fn initialize_value(version: ProtocolVersion) -> (r: JsonValue)
    ensures
        r.model() == initialize_result(version),
{
    let empty: Vec<(String, JsonValue)> = Vec::new();
    proof {
        assert(crate::json::members(empty@) =~= Seq::<(Seq<char>, Json)>::empty());
    }
    let mut caps: Vec<(String, JsonValue)> = Vec::new();
    caps.push(member("tools", object(empty)));
    let ghost cv = caps@;
    let caps = object(caps);
    let mut info: Vec<(String, JsonValue)> = Vec::new();
    info.push(member("name", JsonValue::text("querygraph")));
    info.push(member("version", JsonValue::text("0.1.0")));
    let ghost iv = info@;
    let info = object(info);
    let mut entries: Vec<(String, JsonValue)> = Vec::new();
    entries.push(member("protocolVersion", JsonValue::text(version.as_str())));
    entries.push(member("capabilities", caps));
    entries.push(member("serverInfo", info));
    entries.push(
        member(
            "instructions",
            JsonValue::text(
                "QueryGraph governed semantic layer: import and search semantic models, build four-layer bundles, run the governed multi-agent story, answer questions with signed evidence chains, and verify TypeDID envelopes.",
            ),
        ),
    );
    let ghost ev = entries@;
    proof {
        assert(crate::json::members(cv) =~= seq![("tools"@, Json::Object(Seq::empty()))]);
        assert(crate::json::members(iv) =~= seq![
            ("name"@, Json::Str("querygraph"@)),
            ("version"@, Json::Str("0.1.0"@)),
        ]);
    }
    let r = object(entries);
    proof {
        assert(crate::json::members(ev) =~= initialize_result(version)->Object_0);
    }
    r
}

/// The tool definitions as a session lists them.
fn list_tools(tools: &Vec<JsonValue>, session: SessionState) -> (r: JsonValue)
    ensures
        r.model() == Json::Array(listed_tools(models(tools@), session)),
{
    let legacy = match session {
        SessionState::Ready(ProtocolVersion::Legacy) => true,
        _ => false,
    };
    let mut out: Vec<JsonValue> = Vec::new();
    for i in 0..tools.len()
        invariant
            out@.len() == i,
            legacy == (session == SessionState::Ready(ProtocolVersion::Legacy)),
            forall|j: int|
                0 <= j < i ==> (#[trigger] out@[j]).model() == if legacy {
                    legacy_tool(tools@[j].model())
                } else {
                    tools@[j].model()
                },
    {
        if legacy {
            let t = tools[i].without("outputSchema");
            out.push(t.without("annotations"));
        } else {
            out.push(tools[i].deep_clone());
        }
    }
    let ghost ov = out@;
    let r = array(out);
    proof {
        assert(ov.map_values(|v: JsonValue| v.model()) =~= listed_tools(models(tools@), session));
    }
    r
}

/// Dispatches a legacy method: the handshake, `ping`, `tools/list`, and
/// the checks of `tools/call`, which hands a valid call over to be run.
pub fn dispatch(session: &mut SessionState, tools: &Vec<JsonValue>, method: &str, params: &JsonValue) -> (r:
    Dispatch)
    ensures
        r.model() == dispatch_spec(*old(session), models(tools@), method@, params.model()),
        *final(session) == session_after_dispatch(*old(session), method@, params.model()),
{
    let ready = match *session {
        SessionState::Ready(_) => true,
        _ => false,
    };
    if !str_eq(method, "initialize") && !str_eq(method, "ping") && !ready {
        return Dispatch::Done(
            Err(RpcError { code: -32002, message: owned("session is not initialized") }),
        );
    }
    if str_eq(method, "initialize") {
        match *session {
            SessionState::Uninitialized => {},
            _ => {
                return Dispatch::Done(Err(RpcError::invalid_params("session is already initialized")));
            },
        }
        let client_info = member_at(Some(params), "clientInfo");
        let name_ok = match member_at(client_info, "name") {
            Some(n) => n.is_string(),
            None => false,
        };
        let version_ok = match member_at(client_info, "version") {
            Some(v) => v.is_string(),
            None => false,
        };
        let caps_ok = match member_at(Some(params), "capabilities") {
            Some(c) => c.is_object(),
            None => false,
        };
        let requested = string_at(params, "protocolVersion");
        let requested = match requested {
            Some(r) => r,
            None => {
                return Dispatch::Done(
                    Err(
                        RpcError::invalid_params(
                            "protocolVersion, capabilities, and clientInfo are required",
                        ),
                    ),
                );
            },
        };
        if !caps_ok || !name_ok || !version_ok {
            return Dispatch::Done(
                Err(
                    RpcError::invalid_params(
                        "protocolVersion, capabilities, and clientInfo are required",
                    ),
                ),
            );
        }
        let version = ProtocolVersion::negotiate(requested);
        *session = SessionState::Initializing(version);
        return Dispatch::Done(Ok(initialize_value(version)));
    }
    if str_eq(method, "ping") {
        let empty: Vec<(String, JsonValue)> = Vec::new();
        proof {
            assert(crate::json::members(empty@) =~= Seq::<(Seq<char>, Json)>::empty());
        }
        return Dispatch::Done(Ok(object(empty)));
    }
    if str_eq(method, "tools/list") {
        if params.get("cursor").is_some() {
            return Dispatch::Done(
                Err(RpcError::invalid_params("this tool list has no continuation cursor")),
            );
        }
        let listed = list_tools(tools, *session);
        let mut entries: Vec<(String, JsonValue)> = Vec::new();
        entries.push(member("tools", listed));
        let ghost ev = entries@;
        let r = object(entries);
        proof {
            assert(crate::json::members(ev) =~= seq![
                ("tools"@, Json::Array(listed_tools(models(tools@), *session))),
            ]);
        }
        return Dispatch::Done(Ok(r));
    }
    if str_eq(method, "tools/call") {
        return check_tool_call(tools, params);
    }
    Dispatch::Done(Err(RpcError { code: -32601, message: cat("method not found: ", method) }))
}

/// The checks of `tools/call` before the tool runs.
pub fn check_tool_call(tools: &Vec<JsonValue>, params: &JsonValue) -> (r: Dispatch)
    ensures
        r.model() == call_tool_spec(models(tools@), params.model()),
{
    let name = match string_at(params, "name") {
        Some(n) => n,
        None => {
            return Dispatch::Done(Err(RpcError::invalid_params("tool name is required")));
        },
    };
    let arguments = match params.get("arguments") {
        Some(a) => a.deep_clone(),
        None => {
            let empty: Vec<(String, JsonValue)> = Vec::new();
            proof {
                assert(crate::json::members(empty@) =~= Seq::<(Seq<char>, Json)>::empty());
            }
            object(empty)
        },
    };
    if is_governed_name(name) {
        return Dispatch::Done(
            Err(RpcError::invalid_params("governed scan tools require handle_line_async")),
        );
    }
    if !arguments.is_object() {
        return Dispatch::Done(Err(RpcError::invalid_params("arguments must be an object")));
    }
    if !find_tool(tools, name) {
        return Dispatch::Done(Err(RpcError::invalid_params("unknown tool")));
    }
    Dispatch::CallTool { name: owned(name), arguments }
}

/// Most semantic models a stdio session keeps.
pub const SESSION_MAX_MODELS: usize = 128;

/// Most encoded bytes a stdio session keeps over all its models.
pub const SESSION_MAX_MODEL_BYTES: u64 = 67108864;

/// Whether the session registry, given as `(name, encoded bytes)` pairs,
/// holds a model under `name`.
pub open spec fn registry_holds(entries: Seq<(String, u64)>, name: Seq<char>) -> bool {
    exists|i: int| 0 <= i < entries.len() && (#[trigger] entries[i]).0@ == name
}

/// The encoded bytes of every registered model other than `name`.
pub open spec fn bytes_besides(entries: Seq<(String, u64)>, name: Seq<char>) -> nat
    decreases entries.len(),
{
    if entries.len() == 0 {
        0
    } else {
        let last = entries.last();
        bytes_besides(entries.drop_last(), name) + if last.0@ == name {
            0nat
        } else {
            last.1 as nat
        }
    }
}

/// What the registry answers an import of `bytes` encoded bytes under
/// `name`: a new name is refused once the registry is full, and the import
/// is refused where it and every model it does not replace exceed the byte
/// budget.
pub open spec fn registry_import_spec(entries: Seq<(String, u64)>, name: Seq<char>, bytes: nat) -> Result<
    (),
    (int, Seq<char>),
> {
    if !registry_holds(entries, name) && entries.len() >= SESSION_MAX_MODELS {
        Err((-32602, "session model limit exceeded"@))
    } else if bytes + bytes_besides(entries, name) > SESSION_MAX_MODEL_BYTES {
        Err((-32602, "session model byte limit exceeded"@))
    } else {
        Ok(())
    }
}

/// Checks an import of a model of `bytes` encoded bytes under `name`
/// against the session registry, given as `(name, encoded bytes)` pairs.
pub fn registry_import_check(entries: &Vec<(String, u64)>, name: &str, bytes: u64) -> (r: Result<
    (),
    RpcError,
>)
    ensures
        match r {
            Ok(()) => registry_import_spec(entries@, name@, bytes as nat) == Ok::<
                (),
                (int, Seq<char>),
            >(()),
            Err(e) => registry_import_spec(entries@, name@, bytes as nat) == Err::<
                (),
                (int, Seq<char>),
            >((e.code as int, e.message@)),
        },
{
    let mut held = false;
    let mut total: u128 = bytes as u128;
    let mut i: usize = 0;
    while i < entries.len()
        invariant
            0 <= i <= entries.len(),
            held == registry_holds(entries@.take(i as int), name@),
            total == bytes + bytes_besides(entries@.take(i as int), name@),
            total <= u64::MAX as int * (i as int + 1),
        decreases entries.len() - i,
    {
        let ghost before = entries@.take(i as int);
        let ghost after = entries@.take(i as int + 1);
        proof {
            assert(after.drop_last() =~= before);
            assert(after.last() == entries@[i as int]);
            if registry_holds(after, name@) {
                let k = choose|k: int| 0 <= k < after.len() && (#[trigger] after[k]).0@ == name@;
                if k < i {
                    assert(before[k] == after[k]);
                }
            }
            if registry_holds(before, name@) {
                let k = choose|k: int| 0 <= k < before.len() && (#[trigger] before[k]).0@ == name@;
                assert(after[k] == before[k]);
            }
        }
        let same = str_eq(entries[i].0.as_str(), name);
        if same {
            held = true;
        } else {
            assert(total + entries[i as int].1 <= u64::MAX as int * (i as int + 2)) by (nonlinear_arith)
                requires
                    total <= u64::MAX as int * (i as int + 1),
                    entries[i as int].1 <= u64::MAX,
            ;
            total = total + entries[i].1 as u128;
        }
        proof {
            if !same {
                assert(held == registry_holds(after, name@)) by {
                    if registry_holds(after, name@) {
                        let k = choose|k: int| 0 <= k < after.len() && (#[trigger] after[k]).0@ == name@;
                        assert(k != i);
                    }
                }
            } else {
                assert(after[i as int].0@ == name@);
            }
        }
        i = i + 1;
    }
    proof {
        assert(entries@.take(entries.len() as int) =~= entries@);
    }
    if !held && entries.len() >= SESSION_MAX_MODELS {
        return Err(RpcError::invalid_params("session model limit exceeded"));
    }
    if total > SESSION_MAX_MODEL_BYTES as u128 {
        return Err(RpcError::invalid_params("session model byte limit exceeded"));
    }
    Ok(())
}

} // verus!
