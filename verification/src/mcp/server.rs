//! The MCP server: one stdio session's state and what each line gets.
use vstd::prelude::*;
use crate::json::{member_at, models, without_key, Json, JsonValue};
use crate::mcp::modern::{
    self, complete, complete_spec, completable, discover_result, list_result, result_model,
    stateless_ready, takes_handles, tool_error, tool_error_model, tool_success, tool_success_model,
    validate_spec, Error, ErrorModel, Request,
};
use crate::mcp::session::{
    call_tool_spec, check_tool_call, classify_line, dispatch, dispatch_spec, encode_response, governed_name,
    incoming_spec, outcome_model, parsed_model, response_model, session_after_dispatch,
    session_after_line, Dispatch, DispatchModel, Incoming, IncomingModel, ProtocolVersion,
    SessionState,
};
use crate::mcp::store::{
    handles_model, resolve_spec, selected_models, EntryModel, ModelStore, HANDLE_TTL_SECONDS,
};
use crate::text::str_eq;

verus! {

/// A tool call that passed its checks, for the program to run.
pub struct ToolRun {
    pub id: JsonValue,
    pub name: String,
    pub arguments: JsonValue,
    /// The imported models that the call selected through `model_handles`.
    pub models: Vec<(String, JsonValue)>,
    /// The call belongs to the stateless revision.
    pub stateless: bool,
}

/// What a line of a stdio session gets.
pub enum Handled {
    /// A response to write.
    Reply(JsonValue),
    /// Nothing to write: a notification or a cancellation.
    Silent,
    /// A tool to run; its outcome goes to `finish_tool` or, in the
    /// stateless revision, to `modern::complete`.
    RunTool(ToolRun),
}

/// A stdio MCP session.
pub struct McpServer {
    session: SessionState,
    tools: Vec<JsonValue>,
    registry_configured: bool,
    store: ModelStore,
}

impl McpServer {
    pub closed spec fn session_spec(&self) -> SessionState {
        self.session
    }

    pub closed spec fn tools_spec(&self) -> Seq<Json> {
        models(self.tools@)
    }

    pub closed spec fn registry_spec(&self) -> bool {
        self.registry_configured
    }

    pub closed spec fn store_spec(&self) -> Seq<EntryModel> {
        self.store.view_entries()
    }

    /// The tool definitions are objects the stateless revision can extend,
    /// and the store keeps its bounds.
    pub closed spec fn wf(&self) -> bool {
        &&& self.store.wf()
        &&& forall|i: int| 0 <= i < self.tools@.len() ==> tool_ready(#[trigger] self.tools@[i].model())
    }

    /// A fresh session with no tools, no registry service and no models.
    pub fn new() -> (r: McpServer)
        ensures
            r.wf(),
            r.session_spec() == SessionState::Uninitialized,
            r.tools_spec() == Seq::<Json>::empty(),
            !r.registry_spec(),
            r.store_spec() == Seq::<EntryModel>::empty(),
    {
        let r = McpServer {
            session: SessionState::Uninitialized,
            tools: Vec::new(),
            registry_configured: false,
            store: ModelStore::new(),
        };
        assert(models(r.tools@) =~= Seq::<Json>::empty());
        r
    }

    /// The same session, listing the given tool definitions.
    pub fn with_tool_definitions(self, tools: Vec<JsonValue>) -> (r: McpServer)
        requires
            self.wf(),
            forall|i: int| 0 <= i < tools@.len() ==> tool_ready(#[trigger] tools@[i].model()),
        ensures
            r.wf(),
            r.session_spec() == self.session_spec(),
            r.tools_spec() == models(tools@),
            r.registry_spec() == self.registry_spec(),
            r.store_spec() == self.store_spec(),
    {
        McpServer { tools, ..self }
    }

    /// The same session, with a deployment-owned Pinax registry service
    /// attached for the governed tools.
    pub fn with_registry_service(self) -> (r: McpServer)
        requires
            self.wf(),
        ensures
            r.wf(),
            r.session_spec() == self.session_spec(),
            r.tools_spec() == self.tools_spec(),
            r.registry_spec(),
            r.store_spec() == self.store_spec(),
    {
        McpServer { registry_configured: true, ..self }
    }

    /// Whether the handshake is complete.
    pub fn is_ready(&self) -> (r: bool)
        ensures
            r == (self.session_spec() is Ready),
    {
        match self.session {
            SessionState::Ready(_) => true,
            _ => false,
        }
    }

    /// Whether a registry service is attached.
    pub fn has_registry_service(&self) -> (r: bool)
        ensures
            r == self.registry_spec(),
    {
        self.registry_configured
    }
}

/// What a line gets.
pub enum HandledModel {
    Reply(Json),
    Silent,
    RunTool(Json, Seq<char>, Json, Seq<(Seq<char>, Json)>, bool),
}

impl ToolRun {
    pub open spec fn model(&self) -> HandledModel {
        HandledModel::RunTool(
            self.id.model(),
            self.name@,
            self.arguments.model(),
            selected_models(self.models@),
            self.stateless,
        )
    }
}

impl Handled {
    pub open spec fn model(&self) -> HandledModel {
        match self {
            Handled::Reply(v) => HandledModel::Reply(v.model()),
            Handled::Silent => HandledModel::Silent,
            Handled::RunTool(run) => run.model(),
        }
    }
}

/// The `model_handles` of a call's arguments, where they are an object.
pub open spec fn handles_of(params: Json) -> Option<Json> {
    match params.at("arguments"@) {
        Json::Object(es) => crate::json::lookup(es, "model_handles"@),
        _ => None,
    }
}

/// The call's parameters once `model_handles` is taken out of its
/// arguments; absent arguments become null, as indexing a map inserts them.
pub open spec fn without_handles(params: Json) -> Json {
    match params.get("arguments"@) {
        None => crate::json::with_member(params, "arguments"@, Json::Null),
        Some(a) => crate::json::with_member(params, "arguments"@, without_key(a, "model_handles"@)),
    }
}

/// What a stateless request gets.
pub open spec fn stateless_spec(
    tools: Seq<Json>,
    store: Seq<EntryModel>,
    now: nat,
    id: Json,
    method: Seq<char>,
    params: Json,
) -> HandledModel {
    match validate_spec(tools, method, params) {
        Err(e) => HandledModel::Reply(complete_spec(id, Err(e))),
        Ok(_) => if method == "server/discover"@ {
            HandledModel::Reply(complete_spec(id, Ok(discover_result())))
        } else if method == "tools/list"@ {
            HandledModel::Reply(complete_spec(id, Ok(list_result(tools))))
        } else {
            let name = params.at("name"@).as_str()->Some_0;
            if takes_handles(name) {
                match resolve_spec(store, handles_of(params), now) {
                    Err(e) => HandledModel::Reply(complete_spec(id, Ok(tool_error_model(e.message)))),
                    Ok(sel) => call_outcome(tools, id, without_handles(params), sel),
                }
            } else {
                call_outcome(tools, id, params, Seq::empty())
            }
        },
    }
}

/// The checks of a stateless tool call, as the handshake revisions make
/// them.
pub open spec fn call_outcome(
    tools: Seq<Json>,
    id: Json,
    params: Json,
    sel: Seq<(Seq<char>, Json)>,
) -> HandledModel {
    match call_tool_spec(tools, params) {
        DispatchModel::Done(Err(e)) => HandledModel::Reply(
            complete_spec(id, Err(ErrorModel { code: e.0, message: e.1, data: None })),
        ),
        DispatchModel::Done(Ok(v)) => HandledModel::Reply(complete_spec(id, Ok(v))),
        DispatchModel::CallTool(n, a) => HandledModel::RunTool(id, n, a, sel, true),
    }
}

/// What a line gets in a session.
pub open spec fn handled_spec(
    session: SessionState,
    tools: Seq<Json>,
    store: Seq<EntryModel>,
    now: nat,
    bytes: nat,
    msg: Result<Json, Seq<char>>,
) -> HandledModel {
    match incoming_spec(bytes, msg) {
        IncomingModel::Modern(id, m, p) => stateless_spec(tools, store, now, id, m, p),
        IncomingModel::Cancelled(_) => HandledModel::Silent,
        IncomingModel::Request(id, m, p) => match dispatch_spec(session, tools, m, p) {
            DispatchModel::Done(r) => HandledModel::Reply(response_model(id, r)),
            DispatchModel::CallTool(n, a) => HandledModel::RunTool(id, n, a, Seq::empty(), false),
        },
        IncomingModel::Reply(v) => HandledModel::Reply(v),
        IncomingModel::Notification => HandledModel::Silent,
    }
}

/// The session after a line.
pub open spec fn next_session(
    session: SessionState,
    bytes: nat,
    msg: Result<Json, Seq<char>>,
) -> SessionState {
    match incoming_spec(bytes, msg) {
        IncomingModel::Request(_, m, p) => session_after_dispatch(session, m, p),
        _ => session_after_line(session, bytes, msg),
    }
}

/// No member is named `_meta`.
pub proof fn lemma_no_meta(es: Seq<(Seq<char>, Json)>)
    requires
        forall|i: int| 0 <= i < es.len() ==> (#[trigger] es[i]).0 != "_meta"@,
    ensures
        crate::json::lookup(es, "_meta"@) is None,
    decreases es.len(),
{
    if es.len() > 0 {
        assert(es[0].0 != "_meta"@);
        lemma_no_meta(es.drop_first());
    }
}

/// The results the server builds can be marked complete.
pub proof fn lemma_results_completable(tools: Seq<Json>, message: Seq<char>)
    ensures
        completable(discover_result()),
        completable(list_result(tools)),
        completable(tool_error_model(message)),
{
    reveal_strlit("_meta");
    reveal_strlit("supportedVersions");
    reveal_strlit("capabilities");
    reveal_strlit("ttlMs");
    reveal_strlit("cacheScope");
    reveal_strlit("instructions");
    reveal_strlit("tools");
    reveal_strlit("content");
    reveal_strlit("isError");
    let d = discover_result()->Object_0;
    assert forall|i: int| 0 <= i < d.len() implies (#[trigger] d[i]).0 != "_meta"@ by {
        assert(d[i].0[0] != '_');
    }
    lemma_no_meta(d);
    let l = list_result(tools)->Object_0;
    assert forall|i: int| 0 <= i < l.len() implies (#[trigger] l[i]).0 != "_meta"@ by {
        assert(l[i].0[0] != '_');
    }
    lemma_no_meta(l);
    let t = tool_error_model(message)->Object_0;
    assert forall|i: int| 0 <= i < t.len() implies (#[trigger] t[i]).0 != "_meta"@ by {
        assert(t[i].0[0] != '_');
    }
    lemma_no_meta(t);
}

/// The `model_handles` of a call's arguments, where they are an object.
fn handles_value(params: &JsonValue) -> (r: Option<&JsonValue>)
    ensures
        handles_model(r) == handles_of(params.model()),
{
    match member_at(Some(params), "arguments") {
        Some(a) => {
            if a.is_object() {
                a.get("model_handles")
            } else {
                None
            }
        },
        None => None,
    }
}

/// The call's parameters once `model_handles` is taken out.
fn without_handles_value(params: &JsonValue) -> (r: JsonValue)
    requires
        params.model() is Object,
    ensures
        r.model() == without_handles(params.model()),
{
    match params.get("arguments") {
        None => params.deep_clone().set("arguments", JsonValue::Null),
        Some(a) => {
            let stripped = a.without("model_handles");
            params.deep_clone().set("arguments", stripped)
        },
    }
}

impl McpServer {
    /// Handles one line of the session, of `line_bytes` bytes, given what
    /// parsing it gave and the monotonic time in milliseconds. Responses
    /// are returned; tool calls that pass their checks are handed over to
    /// be run.
    pub fn handle_line(&mut self, line_bytes: usize, message: Result<JsonValue, String>, now: u64) -> (r:
        Handled)
        requires
            old(self).wf(),
        ensures
            final(self).wf(),
            r.model() == handled_spec(
                old(self).session_spec(),
                old(self).tools_spec(),
                old(self).store_spec(),
                now as nat,
                line_bytes as nat,
                parsed_model(message),
            ),
            final(self).session_spec() == next_session(
                old(self).session_spec(),
                line_bytes as nat,
                parsed_model(message),
            ),
            final(self).tools_spec() == old(self).tools_spec(),
            final(self).registry_spec() == old(self).registry_spec(),
            final(self).store_spec() == old(self).store_spec(),
    {
        let ghost msg = parsed_model(message);
        let incoming = classify_line(&mut self.session, line_bytes, message);
        match incoming {
            Incoming::Modern(request) => {
                assert(request.params.model() is Object);
                self.stateless(request, now)
            },
            Incoming::Cancelled(_) => Handled::Silent,
            Incoming::Request { id, method, params } => {
                match dispatch(&mut self.session, &self.tools, method.as_str(), &params) {
                    Dispatch::Done(r) => Handled::Reply(encode_response(id, r)),
                    Dispatch::CallTool { name, arguments } => {
                        let models: Vec<(String, JsonValue)> = Vec::new();
                        assert(selected_models(models@) =~= Seq::<(Seq<char>, Json)>::empty());
                        Handled::RunTool(ToolRun { id, name, arguments, models, stateless: false })
                    },
                }
            },
            Incoming::Reply(v) => Handled::Reply(v),
            Incoming::Notification => Handled::Silent,
        }
    }

    /// Classifies one line of the session and completes the handshake on
    /// `notifications/initialized`, for a transport that routes requests
    /// itself.
    pub fn parse_line(&mut self, line_bytes: usize, message: Result<JsonValue, String>) -> (r: Incoming)
        requires
            old(self).wf(),
        ensures
            final(self).wf(),
            r.model() == incoming_spec(line_bytes as nat, parsed_model(message)),
            final(self).session_spec() == session_after_line(
                old(self).session_spec(),
                line_bytes as nat,
                parsed_model(message),
            ),
            final(self).tools_spec() == old(self).tools_spec(),
            final(self).registry_spec() == old(self).registry_spec(),
            final(self).store_spec() == old(self).store_spec(),
    {
        classify_line(&mut self.session, line_bytes, message)
    }

    /// Answers a request of the handshake revisions.
    pub fn answer_request(&mut self, id: JsonValue, method: &str, params: &JsonValue) -> (r: Handled)
        requires
            old(self).wf(),
        ensures
            final(self).wf(),
            r.model() == match dispatch_spec(old(self).session_spec(), old(self).tools_spec(), method@, params.model()) {
                DispatchModel::Done(res) => HandledModel::Reply(response_model(id.model(), res)),
                DispatchModel::CallTool(n, a) => HandledModel::RunTool(id.model(), n, a, Seq::empty(), false),
            },
            final(self).session_spec() == session_after_dispatch(old(self).session_spec(), method@, params.model()),
            final(self).tools_spec() == old(self).tools_spec(),
            final(self).registry_spec() == old(self).registry_spec(),
            final(self).store_spec() == old(self).store_spec(),
    {
        match dispatch(&mut self.session, &self.tools, method, params) {
            Dispatch::Done(r) => Handled::Reply(encode_response(id, r)),
            Dispatch::CallTool { name, arguments } => {
                let models: Vec<(String, JsonValue)> = Vec::new();
                assert(selected_models(models@) =~= Seq::<(Seq<char>, Json)>::empty());
                Handled::RunTool(ToolRun { id, name, arguments, models, stateless: false })
            },
        }
    }

    /// Answers a stateless request at time `now`.
    pub fn answer_stateless(&self, request: Request, now: u64) -> (r: Handled)
        requires
            self.wf(),
            request.params.model() is Object,
        ensures
            r.model() == stateless_spec(
                self.tools_spec(),
                self.store_spec(),
                now as nat,
                request.id.model(),
                request.method@,
                request.params.model(),
            ),
    {
        self.stateless(request, now)
    }

    /// A stateless request.
    fn stateless(&self, request: Request, now: u64) -> (r: Handled)
        requires
            self.wf(),
            request.params.model() is Object,
        ensures
            r.model() == stateless_spec(
                self.tools_spec(),
                self.store_spec(),
                now as nat,
                request.id.model(),
                request.method@,
                request.params.model(),
            ),
    {
        proof {
            lemma_results_completable(self.tools_spec(), Seq::empty());
        }
        match request.validate_method(&self.tools) {
            Err(e) => {
                return Handled::Reply(complete(request.id, Err(e)));
            },
            Ok(_) => {},
        }
        if str_eq(request.method.as_str(), "server/discover") {
            return Handled::Reply(complete(request.id, Ok(modern::discover_value())));
        }
        if str_eq(request.method.as_str(), "tools/list") {
            return Handled::Reply(complete(request.id, Ok(modern::list_value(&self.tools))));
        }
        let name = match member_at(Some(&request.params), "name") {
            Some(v) => match v.as_str() {
                Some(n) => n,
                None => "",
            },
            None => "",
        };
        if str_eq(name, "search_semantic_model") || str_eq(name, "search_semantic_models") || str_eq(
            name,
            "answer_question",
        ) {
            match self.store.resolve(handles_value(&request.params), now) {
                Err(e) => {
                    proof {
                        lemma_results_completable(self.tools_spec(), e.message@);
                    }
                    return Handled::Reply(complete(request.id, Ok(tool_error(e.message.as_str()))));
                },
                Ok(sel) => {
                    let params = without_handles_value(&request.params);
                    return self.call_outcome(request.id, &params, sel);
                },
            }
        }
        let none: Vec<(String, JsonValue)> = Vec::new();
        assert(selected_models(none@) =~= Seq::<(Seq<char>, Json)>::empty());
        self.call_outcome(request.id, &request.params, none)
    }

    /// The checks of a stateless tool call.
    fn call_outcome(&self, id: JsonValue, params: &JsonValue, sel: Vec<(String, JsonValue)>) -> (r: Handled)
        ensures
            r.model() == call_outcome(self.tools_spec(), id.model(), params.model(), selected_models(sel@)),
    {
        match check_tool_call(&self.tools, params) {
            Dispatch::Done(Err(e)) => Handled::Reply(
                complete(id, Err(Error { code: e.code, message: e.message, data: None })),
            ),
            Dispatch::Done(Ok(_)) => {
                proof {
                    assert(false);
                }
                Handled::Silent
            },
            Dispatch::CallTool { name, arguments } => Handled::RunTool(
                ToolRun { id, name, arguments, models: sel, stateless: true },
            ),
        }
    }
}

/// The model of a tool's outcome: its value and text, or an error message.
pub open spec fn tool_outcome_model(outcome: Result<(JsonValue, String), String>) -> Json {
    match outcome {
        Ok((v, t)) => tool_success_model(v.model(), t@),
        Err(m) => tool_error_model(m@),
    }
}

/// Legacy sessions receive no structured content.
pub open spec fn for_session(session: SessionState, result: Json) -> Json {
    if session == SessionState::Ready(ProtocolVersion::Legacy) {
        without_key(result, "structuredContent"@)
    } else {
        result
    }
}

/// A tool's outcome as a tool result.
fn tool_result(outcome: Result<(JsonValue, String), String>) -> (r: JsonValue)
    ensures
        r.model() == tool_outcome_model(outcome),
{
    match outcome {
        Ok((v, t)) => tool_success(v, t.as_str()),
        Err(m) => tool_error(m.as_str()),
    }
}

/// A lowercase hexadecimal digit.
pub open spec fn is_lower_hex(c: char) -> bool {
    ('0' as u32 <= c as u32 <= '9' as u32) || ('a' as u32 <= c as u32 <= 'f' as u32)
}

/// The hyphenated lowercase text of a random (version 4, RFC 4122 variant)
/// UUID: five groups of 8, 4, 4, 4 and 12 hexadecimal digits joined by
/// hyphens, whose third group starts with `4` and fourth with one of
/// `8`, `9`, `a`, `b`.
pub open spec fn is_uuid_v4_text(s: Seq<char>) -> bool {
    &&& s.len() == 36
    &&& forall|i: int|
        0 <= i < 36 ==> if i == 8 || i == 13 || i == 18 || i == 23 {
            #[trigger] s[i] == '-'
        } else {
            is_lower_hex(s[i])
        }
    &&& s[14] == '4'
    &&& (s[19] == '8' || s[19] == '9' || s[19] == 'a' || s[19] == 'b')
}

/// A fresh, unguessable model handle: `uuid::Uuid::new_v4().to_string()`,
/// a random version 4 UUID in its hyphenated lowercase text form. Which
/// UUID comes out is left open.
#[verifier::external_body]
fn new_model_handle() -> (r: String)
    ensures
        is_uuid_v4_text(r@),
{
    uuid::Uuid::new_v4().to_string()
}

impl McpServer {
    /// The response to a tool call of the handshake revisions, once the tool
    /// has run: its result, without structured content for legacy clients.
    pub fn finish_tool(&self, id: JsonValue, outcome: Result<(JsonValue, String), String>) -> (r:
        JsonValue)
        ensures
            r.model() == response_model(
                id.model(),
                Ok(for_session(self.session_spec(), tool_outcome_model(outcome))),
            ),
    {
        let result = tool_result(outcome);
        let result = match self.session {
            SessionState::Ready(ProtocolVersion::Legacy) => result.without("structuredContent"),
            _ => result,
        };
        encode_response(id, Ok(result))
    }

    /// The response to a stateless tool call, once the tool has run.
    pub fn finish_stateless_tool(id: JsonValue, outcome: Result<(JsonValue, String), String>) -> (r:
        JsonValue)
        ensures
            r.model() == complete_spec(id.model(), Ok(tool_outcome_model(outcome))),
    {
        proof {
            lemma_tool_results_completable(outcome);
        }
        complete(id, Ok(tool_result(outcome)))
    }

    /// Whether a request goes to the governed registry service: a call of a
    /// governed tool once the handshake is complete.
    pub fn governed_request(&self, method: &str, params: &JsonValue) -> (r: bool)
        ensures
            r == (method@ == "tools/call"@ && modern::governed_tool_spec(params.model())
                && self.session_spec() is Ready),
    {
        str_eq(method, "tools/call") && modern::governed_tool(params) && self.is_ready()
    }

    /// The tool result of a governed call where no registry service is
    /// attached; `None` where one is.
    pub fn registry_unavailable(&self) -> (r: Option<JsonValue>)
        ensures
            match r {
                Some(v) => !self.registry_spec() && v.model() == for_session(
                    self.session_spec(),
                    tool_error_model("registry backend is not configured"@),
                ),
                None => self.registry_spec(),
            },
    {
        if self.registry_configured {
            return None;
        }
        let e = tool_error("registry backend is not configured");
        let e = match self.session {
            SessionState::Ready(ProtocolVersion::Legacy) => e.without("structuredContent"),
            _ => e,
        };
        Some(e)
    }

    /// The tool result of a governed call once the registry service has
    /// answered, without structured content for legacy clients.
    pub fn finish_registry_call(&self, outcome: Result<(JsonValue, String), String>) -> (r: JsonValue)
        ensures
            r.model() == for_session(self.session_spec(), tool_outcome_model(outcome)),
    {
        let result = tool_result(outcome);
        match self.session {
            SessionState::Ready(ProtocolVersion::Legacy) => result.without("structuredContent"),
            _ => result,
        }
    }

    /// Stores an imported model at time `now` under a fresh handle and adds
    /// the handle and its lifetime to the import's structured content; a
    /// full store gives the tool error instead.
    pub fn import_model(
        &mut self,
        structured: JsonValue,
        name: String,
        document: JsonValue,
        bytes: u64,
        now: u64,
    ) -> (r: Result<JsonValue, JsonValue>)
        requires
            old(self).wf(),
            crate::json::settable(structured.model()),
        ensures
            final(self).wf(),
            final(self).session_spec() == old(self).session_spec(),
            final(self).tools_spec() == old(self).tools_spec(),
            final(self).registry_spec() == old(self).registry_spec(),
            match r {
                Ok(v) => {
                    let handle = final(self).store_spec().last().handle;
                    &&& crate::mcp::store::insert_spec(
                        old(self).store_spec(),
                        EntryModel {
                            handle,
                            name: name@,
                            document: document.model(),
                            bytes: bytes as nat,
                            created: now as nat,
                        },
                        now as nat,
                    ) == (final(self).store_spec(), Ok::<(), ErrorModel>(()))
                    &&& is_uuid_v4_text(handle)
                    &&& v.model() == crate::json::with_member(
                        crate::json::with_member(structured.model(), "model_handle"@, Json::Str(handle)),
                        "expires_in_seconds"@,
                        Json::Int(3600),
                    )
                },
                Err(v) => {
                    let kept = crate::mcp::store::live_entries(old(self).store_spec(), now as nat);
                    &&& final(self).store_spec() == kept
                    &&& (kept.len() >= crate::mcp::store::MAX_MODELS || bytes + crate::mcp::store::total_bytes(
                        kept,
                    ) > crate::mcp::store::MAX_MODEL_BYTES)
                    &&& v.model() == tool_error_model("model store capacity exceeded"@)
                },
            },
    {
        let handle = new_model_handle();
        let ghost h = handle@;
        let ghost old_store = self.store.view_entries();
        let ghost e = EntryModel {
            handle: h,
            name: name@,
            document: document.model(),
            bytes: bytes as nat,
            created: now as nat,
        };
        let text = handle.clone();
        match self.store.insert(handle, name, document, bytes, now) {
            Ok(_) => {
                proof {
                    let kept = crate::mcp::store::live_entries(old_store, now as nat);
                    let w = crate::mcp::store::without_handle(kept, h);
                    assert(self.store.view_entries() == w.push(e));
                    assert(w.push(e).last() == e);
                    let out = crate::mcp::store::insert_spec(old_store, e, now as nat);
                    assert(out.1 is Ok);
                    assert(out.1 == Ok::<(), ErrorModel>(()));
                    assert(out.0 == self.store.view_entries());
                    assert(self.store.view_entries().last().handle == h);
                }
                let ghost sm = structured.model();
                let with = structured.set("model_handle", JsonValue::String(text));
                proof {
                    crate::mcp::modern::lemma_with_member_at(sm, "model_handle"@, Json::Str(h));
                }
                Ok(with.set("expires_in_seconds", JsonValue::uint(HANDLE_TTL_SECONDS)))
            },
            Err(e) => Err(tool_error(e.message.as_str())),
        }
    }
}

/// Before the handshake completes, only `initialize` and `ping` are
/// served; every other method is refused with `-32002`.
pub proof fn law_methods_need_handshake(
    session: SessionState,
    tools: Seq<Json>,
    method: Seq<char>,
    params: Json,
)
    requires
        !(session is Ready),
        method != "initialize"@,
        method != "ping"@,
    ensures
        dispatch_spec(session, tools, method, params) == DispatchModel::Done(
            Err((-32002int, "session is not initialized"@)),
        ),
        session_after_dispatch(session, method, params) == session,
{
}

/// A session is initialized once: a second `initialize` is refused and
/// changes nothing.
pub proof fn law_initialize_once(session: SessionState, tools: Seq<Json>, params: Json)
    requires
        !(session is Uninitialized),
    ensures
        session is Ready ==> dispatch_spec(session, tools, "initialize"@, params) == DispatchModel::Done(
            Err((-32602int, "session is already initialized"@)),
        ),
        session_after_dispatch(session, "initialize"@, params) == session,
{
}

/// The handshake: a valid `initialize` request followed by the
/// `notifications/initialized` notification makes a fresh session ready
/// with the negotiated revision.
pub proof fn law_handshake(b1: nat, m1: Json, b2: nat, m2: Json)
    requires
        b1 <= crate::mcp::session::MAX_MCP_MESSAGE_BYTES,
        b2 <= crate::mcp::session::MAX_MCP_MESSAGE_BYTES,
        crate::mcp::session::well_formed(m1),
        m1.get("id"@) is Some,
        crate::mcp::session::method_of(m1) == "initialize"@,
        !modern::recognizes_spec("initialize"@, crate::mcp::session::params_of(m1)),
        crate::mcp::session::initialize_params_ok(crate::mcp::session::params_of(m1)),
        crate::mcp::session::well_formed(m2),
        m2.get("id"@) is None,
        crate::mcp::session::method_of(m2) == "notifications/initialized"@,
    ensures
        next_session(next_session(SessionState::Uninitialized, b1, Ok(m1)), b2, Ok(m2))
            == SessionState::Ready(
            crate::mcp::session::negotiate_spec(
                crate::mcp::session::params_of(m1).at("protocolVersion"@).as_str()->Some_0,
            ),
        ),
{
    reveal_strlit("notifications/initialized");
    reveal_strlit("notifications/cancelled");
    assert("notifications/initialized"@ != "notifications/cancelled"@) by {
        assert("notifications/initialized"@[14] != "notifications/cancelled"@[14]);
    }
}

/// A stateless request never changes the session, whatever it asks.
pub proof fn law_stateless_keeps_session(session: SessionState, bytes: nat, msg: Result<Json, Seq<char>>)
    requires
        incoming_spec(bytes, msg) is Modern,
    ensures
        next_session(session, bytes, msg) == session,
{
}

/// A message that fails the checks is answered with `-32600` and no ID,
/// and changes nothing.
pub proof fn law_malformed_refused(session: SessionState, bytes: nat, m: Json)
    requires
        bytes <= crate::mcp::session::MAX_MCP_MESSAGE_BYTES,
        !crate::mcp::session::well_formed(m),
    ensures
        incoming_spec(bytes, Ok(m)) == IncomingModel::Reply(
            crate::mcp::session::failure_model(Json::Null, -32600, "invalid request"@),
        ),
        next_session(session, bytes, Ok(m)) == session,
{
}

/// A stateless request is answered the same whatever the session's state:
/// connection state is never consulted.
pub proof fn law_stateless_ignores_session(
    s1: SessionState,
    s2: SessionState,
    tools: Seq<Json>,
    store: Seq<EntryModel>,
    now: nat,
    bytes: nat,
    msg: Result<Json, Seq<char>>,
)
    requires
        incoming_spec(bytes, msg) is Modern,
    ensures
        handled_spec(s1, tools, store, now, bytes, msg) == handled_spec(s2, tools, store, now, bytes, msg),
{
}

/// Notifications and cancellations get no reply.
pub proof fn law_notifications_unanswered(
    session: SessionState,
    tools: Seq<Json>,
    store: Seq<EntryModel>,
    now: nat,
    bytes: nat,
    msg: Result<Json, Seq<char>>,
)
    requires
        incoming_spec(bytes, msg) is Notification || incoming_spec(bytes, msg) is Cancelled,
    ensures
        handled_spec(session, tools, store, now, bytes, msg) == HandledModel::Silent,
{
}

/// Legacy clients never receive structured content in tool results.
pub proof fn law_legacy_results_unstructured(result: Json)
    requires
        result is Object,
    ensures
        for_session(SessionState::Ready(ProtocolVersion::Legacy), result).get("structuredContent"@) is None,
{
    lemma_strip_key_absent(result->Object_0, "structuredContent"@);
}

/// No member of the stripped members carries the key.
pub proof fn lemma_strip_key_absent(es: Seq<(Seq<char>, Json)>, key: Seq<char>)
    ensures
        crate::json::lookup(crate::json::strip_key(es, key), key) is None,
    decreases es.len(),
{
    lemma_strip_key_members(es, key);
    lemma_lookup_absent(crate::json::strip_key(es, key), key);
}

/// The stripped members carry other keys only.
pub proof fn lemma_strip_key_members(es: Seq<(Seq<char>, Json)>, key: Seq<char>)
    ensures
        forall|i: int|
            0 <= i < crate::json::strip_key(es, key).len() ==> (#[trigger] crate::json::strip_key(
                es,
                key,
            )[i]).0 != key,
    decreases es.len(),
{
    if es.len() > 0 {
        lemma_strip_key_members(es.drop_last(), key);
        let rest = crate::json::strip_key(es.drop_last(), key);
        let all = crate::json::strip_key(es, key);
        assert forall|i: int| 0 <= i < all.len() implies (#[trigger] all[i]).0 != key by {
            if i < rest.len() {
                assert(all[i] == rest[i]);
            }
        }
    }
}

/// Members that never carry a key have no lookup for it.
pub proof fn lemma_lookup_absent(es: Seq<(Seq<char>, Json)>, key: Seq<char>)
    requires
        forall|i: int| 0 <= i < es.len() ==> (#[trigger] es[i]).0 != key,
    ensures
        crate::json::lookup(es, key) is None,
    decreases es.len(),
{
    if es.len() > 0 {
        assert(es[0].0 != key);
        assert forall|i: int| 0 <= i < es.drop_first().len() implies (#[trigger] es.drop_first()[i]).0
            != key by {
            assert(es.drop_first()[i] == es[i + 1]);
        }
        lemma_lookup_absent(es.drop_first(), key);
    }
}

/// Tool results can be marked complete.
pub proof fn lemma_tool_results_completable(outcome: Result<(JsonValue, String), String>)
    ensures
        completable(tool_outcome_model(outcome)),
{
    reveal_strlit("_meta");
    reveal_strlit("content");
    reveal_strlit("structuredContent");
    reveal_strlit("isError");
    let t = tool_outcome_model(outcome)->Object_0;
    assert forall|i: int| 0 <= i < t.len() implies (#[trigger] t[i]).0 != "_meta"@ by {
        assert(t[i].0[0] != '_');
    }
    lemma_no_meta(t);
}

/// A tool definition the session can serve: an object that the stateless
/// revision can extend.
pub open spec fn tool_ready(t: Json) -> bool {
    t is Object && stateless_ready(t)
}

/// `value[key] = ..` does not panic on this (possibly absent) value.
fn settable_at(v: Option<&JsonValue>) -> (r: bool)
    ensures
        r == crate::json::settable(crate::json::opt_model(v)),
{
    match v {
        None => true,
        Some(x) => x.is_null() || x.is_object(),
    }
}

/// Whether a tool definition can be listed by both revisions: an object,
/// whose `inputSchema.properties` (for the tools that take model handles)
/// and `outputSchema.properties` (for the import tool) are objects or
/// absent.
pub fn tool_definition_ready(t: &JsonValue) -> (r: bool)
    ensures
        r == tool_ready(t.model()),
{
    if !t.is_object() {
        return false;
    }
    let name: &str = match t.get("name") {
        Some(n) => match n.as_str() {
            Some(s) => s,
            None => "",
        },
        None => "",
    };
    proof {
        reveal_strlit("");
    }
    assert(name@ == crate::mcp::modern::tool_name(t.model()));
    let handles = str_eq(name, "search_semantic_model") || str_eq(name, "search_semantic_models")
        || str_eq(name, "answer_question");
    let import = str_eq(name, "import_semantic_model");
    let input = member_at(Some(t), "inputSchema");
    let input_props = member_at(input, "properties");
    let output = member_at(Some(t), "outputSchema");
    let output_props = member_at(output, "properties");
    let ok_in = !handles || (settable_at(input) && settable_at(input_props));
    let ok_out = !import || (settable_at(output) && settable_at(output_props));
    ok_in && ok_out
}

} // verus!
