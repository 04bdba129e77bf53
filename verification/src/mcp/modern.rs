//! MCP 2026-07-28: each request carries its own protocol version and client
//! capabilities; no connection state is consulted.
use vstd::prelude::*;
use crate::json::{array, member, member_at, models, object, opt_model, settable, with_member, Json, JsonValue};
use crate::text::{owned, str_eq};

verus! {

/// The stateless protocol revision.
pub const VERSION: &'static str = "2026-07-28";

/// The `_meta` key of the per-request protocol version.
pub const VERSION_KEY: &'static str = "io.modelcontextprotocol/protocolVersion";

/// The `_meta` key of the per-request client capabilities.
pub const CAPABILITIES_KEY: &'static str = "io.modelcontextprotocol/clientCapabilities";

/// The `_meta` key of the optional client information.
pub const CLIENT_INFO_KEY: &'static str = "io.modelcontextprotocol/clientInfo";

pub open spec fn version_text() -> Seq<char> {
    "2026-07-28"@
}

pub open spec fn version_key() -> Seq<char> {
    "io.modelcontextprotocol/protocolVersion"@
}

pub open spec fn capabilities_key() -> Seq<char> {
    "io.modelcontextprotocol/clientCapabilities"@
}

pub open spec fn client_info_key() -> Seq<char> {
    "io.modelcontextprotocol/clientInfo"@
}

/// A JSON-RPC error with optional data.
pub struct Error {
    pub code: i64,
    pub message: String,
    pub data: Option<JsonValue>,
}

/// The model of an error: its code, its message and its data.
pub struct ErrorModel {
    pub code: int,
    pub message: Seq<char>,
    pub data: Option<Json>,
}

impl Error {
    pub open spec fn model(&self) -> ErrorModel {
        ErrorModel {
            code: self.code as int,
            message: self.message@,
            data: match self.data {
                Some(d) => Some(d.model()),
                None => None,
            },
        }
    }

    /// An error without data.
    pub fn new(code: i64, message: &str) -> (r: Error)
        ensures
            r.model() == (ErrorModel { code: code as int, message: message@, data: None }),
    {
        Error { code, message: owned(message), data: None }
    }

    /// The JSON-RPC response of the error; the `id` member is left out
    /// where the ID is null.
    pub fn response(self, id: JsonValue) -> (r: JsonValue)
        ensures
            r.model() == error_response(self.model(), id.model()),
    {
        let ghost m = self.model();
        let ghost idm = id.model();
        let mut err: Vec<(String, JsonValue)> = Vec::new();
        err.push(member("code", JsonValue::integer(self.code)));
        err.push(member("message", JsonValue::String(self.message)));
        match self.data {
            Some(d) => {
                err.push(member("data", d));
            },
            None => {},
        }
        let ghost err_view = err@;
        let error = object(err);
        let mut entries: Vec<(String, JsonValue)> = Vec::new();
        entries.push(member("jsonrpc", JsonValue::text("2.0")));
        entries.push(member("error", error));
        let is_null = id.is_null();
        if !is_null {
            entries.push(member("id", id));
        }
        proof {
            assert(crate::json::members(err_view) =~= error_members(m));
        }
        let r = object(entries);
        proof {
            assert(crate::json::members(entries@) =~= response_members(m, idm));
        }
        r
    }
}

/// The members of an error object.
pub open spec fn error_members(e: ErrorModel) -> Seq<(Seq<char>, Json)> {
    let base = seq![("code"@, Json::Int(e.code)), ("message"@, Json::Str(e.message))];
    match e.data {
        Some(d) => base.push(("data"@, d)),
        None => base,
    }
}

/// The members of an error response.
pub open spec fn response_members(e: ErrorModel, id: Json) -> Seq<(Seq<char>, Json)> {
    let base = seq![("jsonrpc"@, Json::Str("2.0"@)), ("error"@, Json::Object(error_members(e)))];
    if id.is_null() {
        base
    } else {
        base.push(("id"@, id))
    }
}

/// The error response of an error for a request ID.
pub open spec fn error_response(e: ErrorModel, id: Json) -> Json {
    Json::Object(response_members(e, id))
}

/// A request in the stateless revision: `server/discover`, or a request
/// whose `_meta` names a protocol version or client capabilities.
pub open spec fn recognizes_spec(method: Seq<char>, params: Json) -> bool {
    method == "server/discover"@ || params.at("_meta"@).get(version_key()) is Some || params.at(
        "_meta"@,
    ).get(capabilities_key()) is Some
}

/// Whether a request belongs to the stateless revision.
pub fn recognizes(method: &str, params: &JsonValue) -> (r: bool)
    ensures
        r == recognizes_spec(method@, params.model()),
{
    let meta = member_at(Some(params), "_meta");
    str_eq(method, "server/discover") || member_at(meta, "io.modelcontextprotocol/protocolVersion").is_some() || member_at(
        meta,
        "io.modelcontextprotocol/clientCapabilities",
    ).is_some()
}

/// A request of the stateless revision.
pub struct Request {
    pub id: JsonValue,
    pub method: String,
    pub params: JsonValue,
}

/// The checks of a stateless request's metadata, in order: an integer or
/// string ID, the supported version, capabilities as an object, and client
/// information with a name and a version where it is given.
pub open spec fn parse_check(id: Json, params: Json) -> Result<(), ErrorModel> {
    let meta = params.at("_meta"@);
    if !id.is_id() {
        Err(ErrorModel { code: -32600, message: "request ID must be a string or integer"@, data: None })
    } else if meta.at(version_key()).as_str() is None {
        Err(ErrorModel { code: -32602, message: "per-request protocolVersion is required"@, data: None })
    } else if meta.at(version_key()).as_str() != Some(version_text()) {
        Err(
            ErrorModel {
                code: -32022,
                message: "Unsupported protocol version"@,
                data: Some(
                    Json::Object(
                        seq![
                            ("supported"@, Json::Array(seq![Json::Str(version_text())])),
                            ("requested"@, meta.at(version_key())),
                        ],
                    ),
                ),
            },
        )
    } else if !meta.at(capabilities_key()).is_object() {
        Err(
            ErrorModel {
                code: -32602,
                message: "per-request clientCapabilities must be an object"@,
                data: None,
            },
        )
    } else if meta.get(client_info_key()) matches Some(info) && (!info.at("name"@).is_string()
        || !info.at("version"@).is_string()) {
        Err(ErrorModel { code: -32602, message: "clientInfo requires name and version"@, data: None })
    } else {
        Ok(())
    }
}

impl Request {
    /// Checks the metadata of a stateless request.
    pub fn parse(id: JsonValue, method: String, params: JsonValue) -> (r: Result<Request, Error>)
        ensures
            match r {
                Ok(req) => parse_check(id.model(), params.model()) is Ok && req.id == id
                    && req.method == method && req.params == params,
                Err(e) => parse_check(id.model(), params.model()) == Err::<(), ErrorModel>(e.model()),
            },
    {
        if !id.is_id() {
            return Err(Error::new(-32600, "request ID must be a string or integer"));
        }
        let meta = member_at(Some(&params), "_meta");
        let version_value = member_at(meta, "io.modelcontextprotocol/protocolVersion");
        let version = match version_value {
            Some(v) => v.as_str(),
            None => None,
        };
        let version = match version {
            Some(v) => v,
            None => {
                return Err(Error::new(-32602, "per-request protocolVersion is required"));
            },
        };
        if !str_eq(version, "2026-07-28") {
            let mut supported: Vec<JsonValue> = Vec::new();
            supported.push(JsonValue::text("2026-07-28"));
            assert(supported@.map_values(|v: JsonValue| v.model()) =~= seq![Json::Str(version_text())]);
            let supported = crate::json::array(supported);
            let mut data: Vec<(String, JsonValue)> = Vec::new();
            data.push(member("supported", supported));
            data.push(member("requested", JsonValue::text(version)));
            let ghost dv = data@;
            let data = object(data);
            proof {
                assert(crate::json::members(dv) =~= seq![
                    ("supported"@, Json::Array(seq![Json::Str(version_text())])),
                    ("requested"@, opt_model(version_value)),
                ]);
            }
            return Err(
                Error {
                    code: -32022,
                    message: owned("Unsupported protocol version"),
                    data: Some(data),
                },
            );
        }
        let caps = member_at(meta, "io.modelcontextprotocol/clientCapabilities");
        let caps_ok = match caps {
            Some(c) => c.is_object(),
            None => false,
        };
        if !caps_ok {
            return Err(Error::new(-32602, "per-request clientCapabilities must be an object"));
        }
        let info = member_at(meta, "io.modelcontextprotocol/clientInfo");
        match info {
            Some(info) => {
                let name_ok = match member_at(Some(info), "name") {
                    Some(n) => n.is_string(),
                    None => false,
                };
                let version_ok = match member_at(Some(info), "version") {
                    Some(v) => v.is_string(),
                    None => false,
                };
                if !name_ok || !version_ok {
                    return Err(Error::new(-32602, "clientInfo requires name and version"));
                }
            },
            None => {},
        }
        Ok(Request { id, method, params })
    }
}

/// The checks of a stateless method before it runs.
pub open spec fn validate_spec(tools: Seq<Json>, method: Seq<char>, params: Json) -> Result<(), ErrorModel> {
    if method == "server/discover"@ {
        Ok(())
    } else if method == "tools/list"@ {
        if params.get("cursor"@) is None {
            Ok(())
        } else {
            Err(ErrorModel { code: -32602, message: "this tool list has no continuation cursor"@, data: None })
        }
    } else if method == "tools/call"@ {
        match params.at("name"@).as_str() {
            None => Err(ErrorModel { code: -32602, message: "tool name is required"@, data: None }),
            Some(name) => if params.get("arguments"@) matches Some(a) && !a.is_object() {
                Err(ErrorModel { code: -32602, message: "arguments must be an object"@, data: None })
            } else if !crate::mcp::session::tool_named(tools, name) {
                Err(ErrorModel { code: -32602, message: "unknown tool"@, data: None })
            } else {
                Ok(())
            },
        }
    } else {
        Err(
            ErrorModel {
                code: -32601,
                message: "method not found; HTTP supports MCP 2026-07-28"@,
                data: None,
            },
        )
    }
}

impl Request {
    /// Whether the request calls a governed Pinax tool.
    pub fn governed(&self) -> (r: bool)
        ensures
            r == (self.method@ == "tools/call"@ && governed_tool_spec(self.params.model())),
    {
        str_eq(self.method.as_str(), "tools/call") && governed_tool(&self.params)
    }

    /// The checks of the method before it runs.
    pub fn validate_method(&self, tools: &Vec<JsonValue>) -> (r: Result<(), Error>)
        ensures
            match r {
                Ok(_) => validate_spec(models(tools@), self.method@, self.params.model()) is Ok,
                Err(e) => validate_spec(models(tools@), self.method@, self.params.model()) == Err::<
                    (),
                    ErrorModel,
                >(e.model()),
            },
    {
        let method = self.method.as_str();
        if str_eq(method, "server/discover") {
            return Ok(());
        }
        if str_eq(method, "tools/list") {
            if self.params.get("cursor").is_none() {
                return Ok(());
            }
            return Err(Error::new(-32602, "this tool list has no continuation cursor"));
        }
        if str_eq(method, "tools/call") {
            let name = match member_at(Some(&self.params), "name") {
                Some(v) => v.as_str(),
                None => None,
            };
            let name = match name {
                Some(n) => n,
                None => {
                    return Err(Error::new(-32602, "tool name is required"));
                },
            };
            let arguments_ok = match self.params.get("arguments") {
                Some(a) => a.is_object(),
                None => true,
            };
            if !arguments_ok {
                return Err(Error::new(-32602, "arguments must be an object"));
            }
            if !crate::mcp::session::find_tool(tools, name) {
                return Err(Error::new(-32602, "unknown tool"));
            }
            return Ok(());
        }
        Err(Error::new(-32601, "method not found; HTTP supports MCP 2026-07-28"))
    }
}

/// The call names a governed Pinax tool.
pub open spec fn governed_tool_spec(params: Json) -> bool {
    match params.at("name"@).as_str() {
        Some(n) => crate::mcp::session::governed_name(n),
        None => false,
    }
}

/// Whether the call names a governed Pinax tool.
pub fn governed_tool(params: &JsonValue) -> (r: bool)
    ensures
        r == governed_tool_spec(params.model()),
{
    match member_at(Some(params), "name") {
        Some(v) => match v.as_str() {
            Some(n) => crate::mcp::session::is_governed_name(n),
            None => false,
        },
        None => false,
    }
}

/// The server information attached to every complete result.
pub open spec fn server_info() -> Json {
    Json::Object(seq![("name"@, Json::Str("querygraph"@)), ("version"@, Json::Str("0.1.0"@))])
}

/// A result marked complete, with the server information in its `_meta`.
pub open spec fn completed(result: Json) -> Json {
    with_member(
        with_member(result, "resultType"@, Json::Str("complete"@)),
        "_meta"@,
        with_member(
            with_member(result, "resultType"@, Json::Str("complete"@)).at("_meta"@),
            "io.modelcontextprotocol/serverInfo"@,
            server_info(),
        ),
    )
}

/// Results that `complete` can mark: an object whose `_meta`, if any, is an
/// object or null.
pub open spec fn completable(result: Json) -> bool {
    settable(result) && settable(result.at("_meta"@))
}

/// The response of a stateless request: a complete result, or the error.
pub open spec fn complete_spec(id: Json, r: Result<Json, ErrorModel>) -> Json {
    match r {
        Ok(v) => crate::mcp::session::success_model(id, completed(v)),
        Err(e) => error_response(e, id),
    }
}

/// The model of a stateless outcome.
pub open spec fn result_model(r: Result<JsonValue, Error>) -> Result<Json, ErrorModel> {
    match r {
        Ok(v) => Ok(v.model()),
        Err(e) => Err(e.model()),
    }
}

/// The server information object.
fn server_info_value() -> (r: JsonValue)
    ensures
        r.model() == server_info(),
{
    let mut info: Vec<(String, JsonValue)> = Vec::new();
    info.push(member("name", JsonValue::text("querygraph")));
    info.push(member("version", JsonValue::text("0.1.0")));
    let ghost iv = info@;
    let r = object(info);
    assert(crate::json::members(iv) =~= server_info()->Object_0);
    r
}

/// The response of a stateless request.
pub fn complete(id: JsonValue, result: Result<JsonValue, Error>) -> (r: JsonValue)
    requires
        result matches Ok(v) ==> completable(v.model()),
    ensures
        r.model() == complete_spec(id.model(), result_model(result)),
{
    match result {
        Ok(v) => {
            let ghost vm = v.model();
            let marked = v.set("resultType", JsonValue::text("complete"));
            let meta = match marked.get("_meta") {
                Some(m) => m.deep_clone(),
                None => JsonValue::Null,
            };
            assert(meta.model() == with_member(vm, "resultType"@, Json::Str("complete"@)).at("_meta"@));
            assert(settable(meta.model())) by {
                reveal_strlit("resultType");
                reveal_strlit("_meta");
                assert("resultType"@ != "_meta"@) by {
                    assert("resultType"@.len() != "_meta"@.len());
                }
                if vm is Object {
                    let es = vm->Object_0;
                    lemma_at_upsert_other(es, "resultType"@, Json::Str("complete"@), "_meta"@);
                    assert(with_member(vm, "resultType"@, Json::Str("complete"@)).at("_meta"@) == vm.at(
                        "_meta"@,
                    ));
                } else {
                    assert(with_member(vm, "resultType"@, Json::Str("complete"@)) == Json::Object(
                        seq![("resultType"@, Json::Str("complete"@))],
                    ));
                    let one = seq![("resultType"@, Json::Str("complete"@))];
                    assert(one.drop_first() =~= Seq::<(Seq<char>, Json)>::empty());
                    assert(crate::json::lookup(one, "_meta"@) == crate::json::lookup(one.drop_first(), "_meta"@));
                    assert(Json::Object(one).at("_meta"@) == Json::Null);
                }
                assert(meta.model() == with_member(vm, "resultType"@, Json::Str("complete"@)).at("_meta"@));
            }
            let meta = meta.set("io.modelcontextprotocol/serverInfo", server_info_value());
            let done = marked.set("_meta", meta);
            crate::mcp::session::rpc_success(id, done)
        },
        Err(e) => e.response(id),
    }
}

/// Setting one key leaves the lookups of others unchanged.
pub proof fn lemma_at_upsert_other(
    es: Seq<(Seq<char>, Json)>,
    key: Seq<char>,
    value: Json,
    other: Seq<char>,
)
    requires
        key != other,
    ensures
        crate::json::lookup(crate::json::upsert(es, key, value), other) == crate::json::lookup(es, other),
    decreases es.len(),
{
    if es.len() > 0 && es[0].0 != key {
        lemma_at_upsert_other(es.drop_first(), key, value, other);
        let u = seq![es[0]] + crate::json::upsert(es.drop_first(), key, value);
        assert(crate::json::upsert(es, key, value) == u);
        assert(u[0] == es[0]);
        assert(u.drop_first() =~= crate::json::upsert(es.drop_first(), key, value));
        if es[0].0 != other {
            assert(crate::json::lookup(u, other) == crate::json::lookup(u.drop_first(), other));
        }
    } else if es.len() > 0 {
        let u = es.update(0, (key, value));
        assert(crate::json::upsert(es, key, value) == u);
        assert(u[0] == (key, value));
        assert(u.drop_first() =~= es.drop_first());
        assert(crate::json::lookup(u, other) == crate::json::lookup(u.drop_first(), other));
    } else {
        let u = seq![(key, value)];
        assert(crate::json::upsert(es, key, value) == u);
        assert(u.drop_first() =~= Seq::<(Seq<char>, Json)>::empty());
        assert(crate::json::lookup(u, other) == crate::json::lookup(u.drop_first(), other));
    }
}

/// `{"content":[{"type":"text","text":message}],"isError":true}`.
pub open spec fn tool_error_model(message: Seq<char>) -> Json {
    Json::Object(
        seq![
            (
                "content"@,
                Json::Array(
                    seq![
                        Json::Object(
                            seq![("type"@, Json::Str("text"@)), ("text"@, Json::Str(message))],
                        ),
                    ],
                ),
            ),
            ("isError"@, Json::Bool(true)),
        ],
    )
}

/// A failed tool call, reported as a tool result.
pub fn tool_error(message: &str) -> (r: JsonValue)
    ensures
        r.model() == tool_error_model(message@),
{
    let mut part: Vec<(String, JsonValue)> = Vec::new();
    part.push(member("type", JsonValue::text("text")));
    part.push(member("text", JsonValue::text(message)));
    let ghost pv = part@;
    let part = object(part);
    let mut content: Vec<JsonValue> = Vec::new();
    content.push(part);
    let ghost cv = content@;
    let content = array(content);
    let mut entries: Vec<(String, JsonValue)> = Vec::new();
    entries.push(member("content", content));
    entries.push(member("isError", JsonValue::Bool(true)));
    let ghost ev = entries@;
    let r = object(entries);
    proof {
        assert(crate::json::members(pv) =~= seq![
            ("type"@, Json::Str("text"@)),
            ("text"@, Json::Str(message@)),
        ]);
        assert(cv.map_values(|v: JsonValue| v.model()) =~= tool_error_model(message@)->Object_0[0].1->Array_0);
        assert(crate::json::members(ev) =~= tool_error_model(message@)->Object_0);
    }
    r
}

/// `{"content":[{"type":"text","text":text}],"structuredContent":value,
/// "isError":false}`.
pub open spec fn tool_success_model(value: Json, text: Seq<char>) -> Json {
    Json::Object(
        seq![
            (
                "content"@,
                Json::Array(
                    seq![
                        Json::Object(seq![("type"@, Json::Str("text"@)), ("text"@, Json::Str(text))]),
                    ],
                ),
            ),
            ("structuredContent"@, value),
            ("isError"@, Json::Bool(false)),
        ],
    )
}

/// A successful tool call: its value as text and as structured content.
pub fn tool_success(value: JsonValue, text: &str) -> (r: JsonValue)
    ensures
        r.model() == tool_success_model(value.model(), text@),
{
    let ghost vm = value.model();
    let mut part: Vec<(String, JsonValue)> = Vec::new();
    part.push(member("type", JsonValue::text("text")));
    part.push(member("text", JsonValue::text(text)));
    let ghost pv = part@;
    let part = object(part);
    let mut content: Vec<JsonValue> = Vec::new();
    content.push(part);
    let ghost cv = content@;
    let content = array(content);
    let mut entries: Vec<(String, JsonValue)> = Vec::new();
    entries.push(member("content", content));
    entries.push(member("structuredContent", value));
    entries.push(member("isError", JsonValue::Bool(false)));
    let ghost ev = entries@;
    let r = object(entries);
    proof {
        assert(crate::json::members(pv) =~= seq![("type"@, Json::Str("text"@)), ("text"@, Json::Str(text@))]);
        assert(cv.map_values(|v: JsonValue| v.model()) =~= tool_success_model(vm, text@)->Object_0[0].1->Array_0);
        assert(crate::json::members(ev) =~= tool_success_model(vm, text@)->Object_0);
    }
    r
}

/// Setting a key makes the first lookup of that key find the new value.
pub proof fn lemma_at_upsert_same(es: Seq<(Seq<char>, Json)>, key: Seq<char>, value: Json)
    ensures
        crate::json::lookup(crate::json::upsert(es, key, value), key) == Some(value),
    decreases es.len(),
{
    if es.len() > 0 && es[0].0 != key {
        lemma_at_upsert_same(es.drop_first(), key, value);
        let u = seq![es[0]] + crate::json::upsert(es.drop_first(), key, value);
        assert(crate::json::upsert(es, key, value) == u);
        assert(u[0] == es[0]);
        assert(u.drop_first() =~= crate::json::upsert(es.drop_first(), key, value));
    } else if es.len() > 0 {
        let u = es.update(0, (key, value));
        assert(crate::json::upsert(es, key, value) == u);
        assert(u[0] == (key, value));
    } else {
        let u = seq![(key, value)];
        assert(crate::json::upsert(es, key, value) == u);
    }
}

/// `v[a][b][c] = x`, each level made an object where it is null.
pub open spec fn set3(v: Json, a: Seq<char>, b: Seq<char>, c: Seq<char>, x: Json) -> Json {
    with_member(v, a, with_member(v.at(a), b, with_member(v.at(a).at(b), c, x)))
}

/// `v[a][b][c] = ..` does not panic: each level is an object or null.
pub open spec fn settable3(v: Json, a: Seq<char>, b: Seq<char>) -> bool {
    settable(v) && settable(v.at(a)) && settable(v.at(a).at(b))
}

/// The schema of `model_handles` added to the search and answer tools.
pub open spec fn model_handles_schema() -> Json {
    Json::Object(
        seq![
            ("type"@, Json::Str("array"@)),
            ("items"@, Json::Object(seq![("type"@, Json::Str("string"@))])),
            ("maxItems"@, Json::Int(128)),
            (
                "description"@,
                Json::Str(
                    "Explicit model handles returned by import_semantic_model; omitted means no imported models. Central governed ontology discovery uses discover_pinax_ontology."@,
                ),
            ),
        ],
    )
}

/// The description of the import tool in the stateless revision.
pub open spec fn import_description() -> Seq<char> {
    "Import an OSI or Croissant document as an immutable application object. Returns a model_handle valid for one hour or until server restart. Pass it explicitly in model_handles on search/answer calls; possession grants access to the imported document, never to lakehouse rows."@
}

/// `{"type": t}`.
pub open spec fn typed(t: Seq<char>) -> Json {
    Json::Object(seq![("type"@, Json::Str(t))])
}

/// The tools that take `model_handles`.
pub open spec fn takes_handles(name: Seq<char>) -> bool {
    name == "search_semantic_model"@ || name == "search_semantic_models"@ || name == "answer_question"@
}

/// A tool's name, or the empty text.
pub open spec fn tool_name(t: Json) -> Seq<char> {
    match t.at("name"@).as_str() {
        Some(n) => n,
        None => Seq::empty(),
    }
}

/// A tool definition as the stateless revision lists it.
pub open spec fn stateless_tool(t: Json) -> Json {
    let name = tool_name(t);
    if takes_handles(name) {
        set3(t, "inputSchema"@, "properties"@, "model_handles"@, model_handles_schema())
    } else if name == "import_semantic_model"@ {
        let t1 = with_member(t, "description"@, Json::Str(import_description()));
        let t2 = set3(t1, "outputSchema"@, "properties"@, "model_handle"@, typed("string"@));
        set3(t2, "outputSchema"@, "properties"@, "expires_in_seconds"@, typed("integer"@))
    } else {
        t
    }
}

/// The tool definition's shape lets the stateless revision add its
/// members.
pub open spec fn stateless_ready(t: Json) -> bool {
    &&& settable(t)
    &&& takes_handles(tool_name(t)) ==> settable3(t, "inputSchema"@, "properties"@)
    &&& tool_name(t) == "import_semantic_model"@ ==> settable3(t, "outputSchema"@, "properties"@)
}

/// `v[a][b][c] = x`.
fn set_path3(v: JsonValue, a: &str, b: &str, c: &str, x: JsonValue) -> (r: JsonValue)
    requires
        settable3(v.model(), a@, b@),
    ensures
        r.model() == set3(v.model(), a@, b@, c@, x.model()),
{
    let level1 = match v.get(a) {
        Some(l) => l.deep_clone(),
        None => JsonValue::Null,
    };
    let level2 = match level1.get(b) {
        Some(l) => l.deep_clone(),
        None => JsonValue::Null,
    };
    let level2 = level2.set(c, x);
    let level1 = level1.set(b, level2);
    v.set(a, level1)
}

/// A with-member object is settable at the key it was given.
pub proof fn lemma_with_member_at(v: Json, key: Seq<char>, x: Json)
    ensures
        with_member(v, key, x).at(key) == x,
        settable(with_member(v, key, x)),
{
    match v {
        Json::Object(es) => {
            lemma_at_upsert_same(es, key, x);
        },
        _ => {
            lemma_at_upsert_same(Seq::empty(), key, x);
            assert(crate::json::upsert(Seq::<(Seq<char>, Json)>::empty(), key, x) == seq![(key, x)]);
        },
    }
}

/// Setting a key keeps other keys' values.
pub proof fn lemma_with_member_other(v: Json, key: Seq<char>, x: Json, other: Seq<char>)
    requires
        key != other,
        settable(v),
    ensures
        with_member(v, key, x).at(other) == v.at(other),
{
    match v {
        Json::Object(es) => {
            lemma_at_upsert_other(es, key, x, other);
        },
        _ => {
            let one = seq![(key, x)];
            assert(crate::json::upsert(Seq::<(Seq<char>, Json)>::empty(), key, x) == one);
            assert(one.drop_first() =~= Seq::<(Seq<char>, Json)>::empty());
            assert(crate::json::lookup(one, other) == crate::json::lookup(one.drop_first(), other));
        },
    }
}

/// A tool definition as the stateless revision lists it.
fn stateless_tool_value(t: &JsonValue) -> (r: JsonValue)
    requires
        stateless_ready(t.model()),
    ensures
        r.model() == stateless_tool(t.model()),
{
    let name = match member_at(Some(t), "name") {
        Some(v) => match v.as_str() {
            Some(n) => n,
            None => "",
        },
        None => "",
    };
    proof {
        reveal_strlit("");
    }
    assert(name@ == tool_name(t.model())) by {
        if t.model().at("name"@).as_str() is None {
            assert(""@ =~= Seq::<char>::empty());
        }
    }
    if str_eq(name, "search_semantic_model") || str_eq(name, "search_semantic_models") || str_eq(
        name,
        "answer_question",
    ) {
        return set_path3(t.deep_clone(), "inputSchema", "properties", "model_handles", model_handles_value());
    }
    if str_eq(name, "import_semantic_model") {
        let ghost tm = t.model();
        let t1 = t.deep_clone().set(
            "description",
            JsonValue::text(
                "Import an OSI or Croissant document as an immutable application object. Returns a model_handle valid for one hour or until server restart. Pass it explicitly in model_handles on search/answer calls; possession grants access to the imported document, never to lakehouse rows.",
            ),
        );
        proof {
            reveal_strlit("description");
            reveal_strlit("outputSchema");
            assert("description"@ != "outputSchema"@) by {
                assert("description"@.len() != "outputSchema"@.len());
            }
            lemma_with_member_other(tm, "description"@, Json::Str(import_description()), "outputSchema"@);
            lemma_with_member_at(tm, "description"@, Json::Str(import_description()));
        }
        let t2 = set_path3(t1, "outputSchema", "properties", "model_handle", typed_value("string"));
        proof {
            let m1 = t1.model();
            let inner = with_member(m1.at("outputSchema"@).at("properties"@), "model_handle"@, typed("string"@));
            let mid = with_member(m1.at("outputSchema"@), "properties"@, inner);
            lemma_with_member_at(m1, "outputSchema"@, mid);
            lemma_with_member_at(m1.at("outputSchema"@), "properties"@, inner);
            lemma_with_member_at(m1.at("outputSchema"@).at("properties"@), "model_handle"@, typed("string"@));
        }
        return set_path3(t2, "outputSchema", "properties", "expires_in_seconds", typed_value("integer"));
    }
    t.deep_clone()
}

/// `{"type": t}`.
fn typed_value(t: &str) -> (r: JsonValue)
    ensures
        r.model() == typed(t@),
{
    let mut e: Vec<(String, JsonValue)> = Vec::new();
    e.push(member("type", JsonValue::text(t)));
    let ghost ev = e@;
    let r = object(e);
    assert(crate::json::members(ev) =~= seq![("type"@, Json::Str(t@))]);
    r
}

/// The schema of `model_handles`.
fn model_handles_value() -> (r: JsonValue)
    ensures
        r.model() == model_handles_schema(),
{
    let mut e: Vec<(String, JsonValue)> = Vec::new();
    e.push(member("type", JsonValue::text("array")));
    e.push(member("items", typed_value("string")));
    e.push(member("maxItems", JsonValue::uint(128)));
    e.push(
        member(
            "description",
            JsonValue::text(
                "Explicit model handles returned by import_semantic_model; omitted means no imported models. Central governed ontology discovery uses discover_pinax_ontology.",
            ),
        ),
    );
    let ghost ev = e@;
    let r = object(e);
    assert(crate::json::members(ev) =~= model_handles_schema()->Object_0);
    r
}

/// The tool definitions as the stateless revision lists them.
pub fn definitions(tools: &Vec<JsonValue>) -> (r: JsonValue)
    requires
        forall|i: int| 0 <= i < tools@.len() ==> stateless_ready(#[trigger] tools@[i].model()),
    ensures
        r.model() == Json::Array(models(tools@).map_values(|t: Json| stateless_tool(t))),
{
    let mut out: Vec<JsonValue> = Vec::new();
    for i in 0..tools.len()
        invariant
            forall|i: int| 0 <= i < tools@.len() ==> stateless_ready(#[trigger] tools@[i].model()),
            out@.len() == i,
            forall|j: int| 0 <= j < i ==> (#[trigger] out@[j]).model() == stateless_tool(tools@[j].model()),
    {
        out.push(stateless_tool_value(&tools[i]));
    }
    let ghost ov = out@;
    let r = array(out);
    assert(ov.map_values(|v: JsonValue| v.model()) =~= models(tools@).map_values(|t: Json| stateless_tool(t)));
    r
}

/// The instructions of `server/discover`.
pub open spec fn discover_instructions() -> Seq<char> {
    "Consult discover_pinax_ontology with a purpose-bound signed intent for reviewed central ontology mappings, Croissant/CDIF and digest evidence. Discovery grants no read authority. Imported models return a model_handle; pass model_handles explicitly to search/answer. Handles expire after one hour and on process restart."@
}

/// The result of `server/discover`.
pub open spec fn discover_result() -> Json {
    Json::Object(
        seq![
            ("supportedVersions"@, Json::Array(seq![Json::Str(version_text())])),
            ("capabilities"@, Json::Object(seq![("tools"@, Json::Object(Seq::empty()))])),
            ("ttlMs"@, Json::Int(0)),
            ("cacheScope"@, Json::Str("public"@)),
            ("instructions"@, Json::Str(discover_instructions())),
        ],
    )
}

/// The result of `server/discover`.
pub fn discover_value() -> (r: JsonValue)
    ensures
        r.model() == discover_result(),
{
    let mut versions: Vec<JsonValue> = Vec::new();
    versions.push(JsonValue::text("2026-07-28"));
    assert(versions@.map_values(|v: JsonValue| v.model()) =~= seq![Json::Str(version_text())]);
    let versions = array(versions);
    let empty: Vec<(String, JsonValue)> = Vec::new();
    assert(crate::json::members(empty@) =~= Seq::<(Seq<char>, Json)>::empty());
    let mut caps: Vec<(String, JsonValue)> = Vec::new();
    caps.push(member("tools", object(empty)));
    let ghost cv = caps@;
    let caps = object(caps);
    assert(crate::json::members(cv) =~= seq![("tools"@, Json::Object(Seq::empty()))]);
    let mut e: Vec<(String, JsonValue)> = Vec::new();
    e.push(member("supportedVersions", versions));
    e.push(member("capabilities", caps));
    e.push(member("ttlMs", JsonValue::uint(0)));
    e.push(member("cacheScope", JsonValue::text("public")));
    e.push(
        member(
            "instructions",
            JsonValue::text(
                "Consult discover_pinax_ontology with a purpose-bound signed intent for reviewed central ontology mappings, Croissant/CDIF and digest evidence. Discovery grants no read authority. Imported models return a model_handle; pass model_handles explicitly to search/answer. Handles expire after one hour and on process restart.",
            ),
        ),
    );
    let ghost ev = e@;
    let r = object(e);
    assert(crate::json::members(ev) =~= discover_result()->Object_0);
    r
}

/// The result of `tools/list` in the stateless revision.
pub open spec fn list_result(tools: Seq<Json>) -> Json {
    Json::Object(
        seq![
            ("tools"@, Json::Array(tools.map_values(|t: Json| stateless_tool(t)))),
            ("ttlMs"@, Json::Int(0)),
            ("cacheScope"@, Json::Str("public"@)),
        ],
    )
}

/// The result of `tools/list` in the stateless revision.
pub fn list_value(tools: &Vec<JsonValue>) -> (r: JsonValue)
    requires
        forall|i: int| 0 <= i < tools@.len() ==> stateless_ready(#[trigger] tools@[i].model()),
    ensures
        r.model() == list_result(models(tools@)),
{
    let defs = definitions(tools);
    let mut e: Vec<(String, JsonValue)> = Vec::new();
    e.push(member("tools", defs));
    e.push(member("ttlMs", JsonValue::uint(0)));
    e.push(member("cacheScope", JsonValue::text("public")));
    let ghost ev = e@;
    let r = object(e);
    assert(crate::json::members(ev) =~= list_result(models(tools@))->Object_0);
    r
}

} // verus!
