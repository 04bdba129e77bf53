//! The checks of the stateless HTTP transport: headers, origins, the
//! message, and the status of each refusal.
//!
//! Headers arrive as (lowercase name, value) pairs; a value is `None` where
//! it is not visible ASCII text.
use vstd::prelude::*;
use vstd::utf8::{decode_utf8, valid_utf8};
use crate::json::{member_at, Json, JsonValue};
use crate::mcp::modern::{
    self, error_response, parse_check, validate_spec, Error, ErrorModel, Request,
};
use crate::mcp::session::{method_of, params_of, well_formed};
use crate::text::{
    chars_of, ends_with, has_prefix, has_suffix, owned, slice_string, split_once, split_once_char,
    starts_with, str_eq, trim, trim_str,
};

verus! {

/// The values of the headers with a given name, in order.
pub open spec fn header_values(headers: Seq<(String, Option<String>)>, name: Seq<char>) -> Seq<
    Option<Seq<char>>,
>
    decreases headers.len(),
{
    if headers.len() == 0 {
        Seq::empty()
    } else {
        let rest = header_values(headers.drop_last(), name);
        if headers.last().0@ == name {
            rest.push(
                match headers.last().1 {
                    Some(v) => Some(v@),
                    None => None,
                },
            )
        } else {
            rest
        }
    }
}

/// The value of a header that occurs exactly once as text.
pub open spec fn single_header_spec(headers: Seq<(String, Option<String>)>, name: Seq<char>) -> Option<
    Seq<char>,
> {
    let vs = header_values(headers, name);
    if vs.len() == 1 {
        vs[0]
    } else {
        None
    }
}

/// The value of a header that occurs exactly once as text; `None` where it
/// is absent, repeated, or not text.
pub fn single_header(headers: &Vec<(String, Option<String>)>, name: &str) -> (r: Option<String>)
    ensures
        match r {
            Some(v) => single_header_spec(headers@, name@) == Some(v@),
            None => single_header_spec(headers@, name@) is None,
        },
{
    let mut found: Option<String> = None;
    let mut count: usize = 0;
    for i in 0..headers.len()
        invariant
            count == header_values(headers@.take(i as int), name@).len(),
            count <= i,
            count >= 1 ==> match found {
                Some(v) => header_values(headers@.take(i as int), name@)[0] == Some(v@),
                None => header_values(headers@.take(i as int), name@)[0] is None,
            },
    {
        assert(headers@.take(i + 1).drop_last() =~= headers@.take(i as int));
        assert(headers@.take(i + 1).last() == headers@[i as int]);
        if str_eq(headers[i].0.as_str(), name) {
            if count == 0 {
                found = match &headers[i].1 {
                    Some(v) => Some(v.clone()),
                    None => None,
                };
            }
            count = count + 1;
        }
    }
    assert(headers@.take(headers@.len() as int) =~= headers@);
    if count == 1 {
        found
    } else {
        None
    }
}

/// Whether a header of that name is present at all.
pub open spec fn has_header(headers: Seq<(String, Option<String>)>, name: Seq<char>) -> bool {
    header_values(headers, name).len() > 0
}

/// A browser origin is admitted when no `origin` header is sent, or when
/// one is sent once, as text, equal to an allowed origin.
pub open spec fn origin_allowed_spec(headers: Seq<(String, Option<String>)>, allowed: Seq<Seq<char>>) -> bool {
    !has_header(headers, "origin"@) || match single_header_spec(headers, "origin"@) {
        Some(o) => allowed.contains(o),
        None => false,
    }
}

/// An empty allow-list admits no browser origin, and a request that sends
/// no `origin` header is always admitted.
pub proof fn law_empty_allowlist_rejects_origins(headers: Seq<(String, Option<String>)>)
    ensures
        has_header(headers, "origin"@) ==> !origin_allowed_spec(headers, Seq::empty()),
        !has_header(headers, "origin"@) ==> forall|allowed: Seq<Seq<char>>| origin_allowed_spec(headers, allowed),
{
}

/// An origin sent once as text is admitted exactly when it equals some
/// entry of the allow-list, at whatever position; an origin sent twice or
/// not as text is refused.
pub proof fn law_origin_admitted_by_membership(
    headers: Seq<(String, Option<String>)>,
    allowed: Seq<Seq<char>>,
    o: Seq<char>,
    i: int,
)
    ensures
        single_header_spec(headers, "origin"@) == Some(o) && 0 <= i < allowed.len() && allowed[i] == o
            ==> origin_allowed_spec(headers, allowed),
        single_header_spec(headers, "origin"@) == Some(o) && (forall|j: int|
            0 <= j < allowed.len() ==> allowed[j] != o) ==> !origin_allowed_spec(headers, allowed),
        has_header(headers, "origin"@) && single_header_spec(headers, "origin"@) is None
            ==> !origin_allowed_spec(headers, allowed),
{
    if single_header_spec(headers, "origin"@) == Some(o) && 0 <= i < allowed.len() && allowed[i] == o {
        assert(allowed.contains(o));
    }
}

/// Whether the request's origin is admitted; an empty list admits no
/// browser origin.
pub fn origin_allowed(headers: &Vec<(String, Option<String>)>, allowed: &Vec<String>) -> (r: bool)
    ensures
        r == origin_allowed_spec(headers@, crate::text::views(allowed@)),
{
    let mut present = false;
    for i in 0..headers.len()
        invariant
            present == has_header(headers@.take(i as int), "origin"@),
    {
        assert(headers@.take(i + 1).drop_last() =~= headers@.take(i as int));
        assert(headers@.take(i + 1).last() == headers@[i as int]);
        if str_eq(headers[i].0.as_str(), "origin") {
            present = true;
        }
    }
    assert(headers@.take(headers@.len() as int) =~= headers@);
    if !present {
        return true;
    }
    let origin = match single_header(headers, "origin") {
        Some(o) => o,
        None => {
            return false;
        },
    };
    let ghost vs = crate::text::views(allowed@);
    for i in 0..allowed.len()
        invariant
            vs == crate::text::views(allowed@),
            forall|j: int| 0 <= j < i ==> vs[j] != origin@,
            single_header_spec(headers@, "origin"@) == Some(origin@),
            has_header(headers@, "origin"@),
    {
        if str_eq(allowed[i].as_str(), origin.as_str()) {
            assert(vs[i as int] == origin@);
            assert(vs.contains(origin@));
            return true;
        }
    }
    false
}

/// The text before the first `;`.
pub open spec fn media_type(v: Seq<char>) -> Seq<char> {
    match split_once(v, ';') {
        Some(p) => p.0,
        None => v,
    }
}

/// The statuses of the checks before the body is read: 429 when no
/// concurrency permit is free, 415 unless the content type is
/// `application/json`, 406 unless the client accepts both JSON and event
/// streams.
pub open spec fn precheck_spec(
    permit: bool,
    headers: Seq<(String, Option<String>)>,
    accepts_json: bool,
    accepts_stream: bool,
) -> Option<u16> {
    if !permit {
        Some(429)
    } else if match single_header_spec(headers, "content-type"@) {
        Some(v) => trim(media_type(v)) != "application/json"@,
        None => true,
    } {
        Some(415)
    } else if !accepts_json || !accepts_stream {
        Some(406)
    } else {
        None
    }
}

/// The checks before the body, in order, for a request whose single
/// `content-type` value is `m` followed by nothing or by `;` and
/// parameters, where `m` holds no `;`: no free permit gives 429; a media
/// type `m` other than `application/json` (spaces around it aside) gives
/// 415; a client that does not accept both JSON and event streams gives
/// 406; otherwise the request proceeds.
pub proof fn law_precheck_statuses(
    permit: bool,
    headers: Seq<(String, Option<String>)>,
    accepts_json: bool,
    accepts_stream: bool,
    m: Seq<char>,
    rest: Seq<char>,
)
    requires
        !m.contains(';'),
        rest.len() == 0 || rest[0] == ';',
        single_header_spec(headers, "content-type"@) == Some(m + rest),
    ensures
        !permit ==> precheck_spec(permit, headers, accepts_json, accepts_stream) == Some(429u16),
        permit && trim(m) != "application/json"@ ==> precheck_spec(permit, headers, accepts_json, accepts_stream)
            == Some(415u16),
        permit && trim(m) == "application/json"@ && !(accepts_json && accepts_stream) ==> precheck_spec(
            permit,
            headers,
            accepts_json,
            accepts_stream,
        ) == Some(406u16),
        permit && trim(m) == "application/json"@ && accepts_json && accepts_stream ==> precheck_spec(
            permit,
            headers,
            accepts_json,
            accepts_stream,
        ) is None,
{
    let v = m + rest;
    if rest.len() == 0 {
        assert(v =~= m);
        assert(crate::text::first_index(v, ';') is None);
    } else {
        assert(v[m.len() as int] == ';');
        assert forall|j: int| 0 <= j < m.len() implies v[j] != ';' by {
            assert(v[j] == m[j]);
            if m[j] == ';' {
                assert(m.contains(';'));
            }
        }
        crate::text::lemma_first_index(v, ';', m.len() as int);
        assert(v.subrange(0, m.len() as int) =~= m);
    }
    assert(media_type(v) == m);
}

/// A request without a single `content-type` text value is refused with
/// 415 once a permit is free.
pub proof fn law_precheck_needs_content_type(
    headers: Seq<(String, Option<String>)>,
    accepts_json: bool,
    accepts_stream: bool,
)
    requires
        single_header_spec(headers, "content-type"@) is None,
    ensures
        precheck_spec(true, headers, accepts_json, accepts_stream) == Some(415u16),
{
}

/// The checks before the body is read; `None` where the request may
/// proceed.
pub fn precheck(
    permit: bool,
    headers: &Vec<(String, Option<String>)>,
    accepts_json: bool,
    accepts_stream: bool,
) -> (r: Option<u16>)
    ensures
        r == precheck_spec(permit, headers@, accepts_json, accepts_stream),
{
    if !permit {
        return Some(429);
    }
    let content_ok = match single_header(headers, "content-type") {
        Some(v) => {
            let media = match split_once_char(v.as_str(), ';') {
                Some((m, _)) => m,
                None => v,
            };
            let media = trim_str(media.as_str());
            str_eq(media.as_str(), "application/json")
        },
        None => false,
    };
    if !content_ok {
        return Some(415);
    }
    if !accepts_json || !accepts_stream {
        return Some(406);
    }
    None
}

/// The bytes that standard base64 text decodes to, as the `base64` crate
/// decodes it, or `None` where it rejects the text.
pub uninterp spec fn base64_standard(text: Seq<char>) -> Option<Seq<u8>>;

/// `base64::engine::general_purpose::STANDARD.decode(text)`, with its error
/// mapped to `None`.
#[verifier::external_body]
fn base64_decode(text: &str) -> (r: Option<Vec<u8>>)
    ensures
        match r {
            Some(v) => base64_standard(text@) == Some(v@),
            None => base64_standard(text@) is None,
        },
{
    base64::Engine::decode(&base64::engine::general_purpose::STANDARD, text).ok()
}

/// `String::from_utf8`: the text that valid UTF-8 bytes encode, or `None`
/// where the bytes are not valid UTF-8.
#[verifier::external_body]
fn utf8_text(bytes: Vec<u8>) -> (r: Option<String>)
    ensures
        match r {
            Some(s) => valid_utf8(bytes@) && s@ == decode_utf8(bytes@),
            None => !valid_utf8(bytes@),
        },
{
    String::from_utf8(bytes).ok()
}

/// Tab or visible ASCII and space.
pub open spec fn header_char(c: char) -> bool {
    c == '\t' || (' ' <= c && c <= '~')
}

/// What an `mcp-name` header value names: `=?base64?…?=` decodes once to
/// UTF-8 text; anything else must be untrimmed tab or visible ASCII text.
pub open spec fn decode_header_spec(value: Seq<char>) -> Option<Seq<char>> {
    let prefix = "=?base64?"@;
    let rest = value.subrange(prefix.len() as int, value.len() as int);
    if starts_with(value, prefix) && ends_with(rest, "?="@) {
        match base64_standard(rest.subrange(0, rest.len() - 2)) {
            Some(bytes) => if valid_utf8(bytes) {
                Some(decode_utf8(bytes))
            } else {
                None
            },
            None => None,
        }
    } else if trim(value) == value && forall|i: int| 0 <= i < value.len() ==> header_char(#[trigger] value[i]) {
        Some(value)
    } else {
        None
    }
}

/// Decodes an `mcp-name` header value.
pub fn decode_header(value: &str) -> (r: Option<String>)
    ensures
        match r {
            Some(s) => decode_header_spec(value@) == Some(s@),
            None => decode_header_spec(value@) is None,
        },
{
    proof {
        reveal_strlit("=?base64?");
        reveal_strlit("?=");
    }
    let chars = chars_of(value);
    if has_prefix(value, "=?base64?") {
        let rest = slice_string(&chars, 9, chars.len());
        if has_suffix(rest.as_str(), "?=") {
            let rc = chars_of(rest.as_str());
            let body = slice_string(&rc, 0, rc.len() - 2);
            return match base64_decode(body.as_str()) {
                Some(bytes) => utf8_text(bytes),
                None => None,
            };
        }
    }
    let ghost prefix = "=?base64?"@;
    let ghost rest = value@.subrange(prefix.len() as int, value@.len() as int);
    assert(!(starts_with(value@, prefix) && ends_with(rest, "?="@)));
    let trimmed = trim_str(value);
    if !str_eq(trimmed.as_str(), value) {
        return None;
    }
    for i in 0..chars.len()
        invariant
            chars@ == value@,
            forall|j: int| 0 <= j < i ==> header_char(#[trigger] value@[j]),
            !(starts_with(value@, prefix) && ends_with(rest, "?="@)),
            prefix == "=?base64?"@,
            rest == value@.subrange(prefix.len() as int, value@.len() as int),
            trim(value@) == value@,
    {
        let c = chars[i];
        if !(c == '\t' || (' ' <= c && c <= '~')) {
            assert(!header_char(value@[i as int]));
            return None;
        }
    }
    Some(owned(value))
}

/// The error of missing, malformed or inconsistent MCP headers.
pub open spec fn mismatch() -> ErrorModel {
    ErrorModel {
        code: -32020,
        message: "HeaderMismatch: missing, malformed or inconsistent MCP headers"@,
        data: None,
    }
}

/// The member that the `mcp-name` header must name, for the methods that
/// have one.
pub open spec fn named_source(method: Seq<char>, params: Json) -> Option<Json> {
    if method == "tools/call"@ || method == "prompts/get"@ {
        Some(params.at("name"@))
    } else if method == "resources/read"@ {
        Some(params.at("uri"@))
    } else {
        None
    }
}

/// The headers agree with the message: a protocol version header that
/// matches the body's version where the body has one, a method header
/// equal to the method, and for named methods an `mcp-name` header that
/// decodes to the name.
pub open spec fn headers_spec(headers: Seq<(String, Option<String>)>, method: Seq<char>, params: Json) -> Result<
    (),
    ErrorModel,
> {
    match single_header_spec(headers, "mcp-protocol-version"@) {
        None => Err(mismatch()),
        Some(version) => if params.at("_meta"@).get(modern::version_key()) matches Some(bv) && bv.as_str()
            != Some(version) {
            Err(mismatch())
        } else if single_header_spec(headers, "mcp-method"@) != Some(method) {
            Err(mismatch())
        } else {
            match named_source(method, params) {
                None => Ok(()),
                Some(source) => match single_header_spec(headers, "mcp-name"@) {
                    None => Err(mismatch()),
                    Some(encoded) => match decode_header_spec(encoded) {
                        None => Err(mismatch()),
                        Some(decoded) => if source.as_str() != Some(decoded) {
                            Err(mismatch())
                        } else {
                            Ok(())
                        },
                    },
                },
            }
        },
    }
}

/// Checks the MCP headers against the message.
pub fn validate_headers(headers: &Vec<(String, Option<String>)>, method: &str, params: &JsonValue) -> (r:
    Result<(), Error>)
    ensures
        match r {
            Ok(_) => headers_spec(headers@, method@, params.model()) is Ok,
            Err(e) => headers_spec(headers@, method@, params.model()) == Err::<(), ErrorModel>(e.model()),
        },
{
    let version = match single_header(headers, "mcp-protocol-version") {
        Some(v) => v,
        None => {
            return Err(mismatch_error());
        },
    };
    let body_version = member_at(member_at(Some(params), "_meta"), "io.modelcontextprotocol/protocolVersion");
    match body_version {
        Some(bv) => {
            let same = match bv.as_str() {
                Some(t) => str_eq(t, version.as_str()),
                None => false,
            };
            if !same {
                return Err(mismatch_error());
            }
        },
        None => {},
    }
    let method_ok = match single_header(headers, "mcp-method") {
        Some(m) => str_eq(m.as_str(), method),
        None => false,
    };
    if !method_ok {
        return Err(mismatch_error());
    }
    let source = if str_eq(method, "tools/call") || str_eq(method, "prompts/get") {
        Some(member_at(Some(params), "name"))
    } else if str_eq(method, "resources/read") {
        Some(member_at(Some(params), "uri"))
    } else {
        None
    };
    match source {
        None => Ok(()),
        Some(source) => {
            let encoded = match single_header(headers, "mcp-name") {
                Some(e) => e,
                None => {
                    return Err(mismatch_error());
                },
            };
            let decoded = match decode_header(encoded.as_str()) {
                Some(d) => d,
                None => {
                    return Err(mismatch_error());
                },
            };
            let same = match source {
                Some(v) => match v.as_str() {
                    Some(t) => str_eq(t, decoded.as_str()),
                    None => false,
                },
                None => false,
            };
            if !same {
                return Err(mismatch_error());
            }
            Ok(())
        },
    }
}

/// The header mismatch error.
fn mismatch_error() -> (r: Error)
    ensures
        r.model() == mismatch(),
{
    Error::new(-32020, "HeaderMismatch: missing, malformed or inconsistent MCP headers")
}

/// The HTTP status of an error: 404 for an unknown method, 500 for an
/// internal error, 400 otherwise.
pub open spec fn failure_status_spec(code: int) -> u16 {
    if code == -32601 {
        404
    } else if code == -32603 {
        500
    } else {
        400
    }
}

/// The HTTP status of an error.
pub fn failure_status(code: i64) -> (r: u16)
    ensures
        r == failure_status_spec(code as int),
{
    if code == -32601 {
        404
    } else if code == -32603 {
        500
    } else {
        400
    }
}

/// The status of a stateless response: that of its error, or 200.
pub open spec fn reply_status_spec(reply: Json) -> u16 {
    match reply.get("error"@) {
        Some(e) => match e.at("code"@) {
            Json::Int(c) => failure_status_spec(c),
            _ => 400,
        },
        None => 200,
    }
}

/// The status of a stateless response.
pub fn reply_status(reply: &JsonValue) -> (r: u16)
    ensures
        r == reply_status_spec(reply.model()),
{
    match reply.get("error") {
        Some(e) => match member_at(Some(e), "code") {
            Some(JsonValue::Number(crate::json::JsonNumber::PosInt(n))) => {
                if *n > 2147483647 {
                    400
                } else {
                    failure_status(*n as i64)
                }
            },
            Some(JsonValue::Number(crate::json::JsonNumber::NegInt(n))) => failure_status(*n),
            _ => 400,
        },
        None => 200,
    }
}

/// What a posted message comes to.
pub enum HttpStep {
    /// A response with this status and body.
    Reply { status: u16, body: JsonValue },
    /// A request to answer at once, with `McpServer::answer_stateless`.
    Answer(Request),
    /// A governed request to answer as a one-event stream.
    Stream(Request),
}

/// The model of what a posted message comes to.
pub enum HttpStepModel {
    Reply(u16, Json),
    Answer(Json, Seq<char>, Json),
    Stream(Json, Seq<char>, Json),
}

impl HttpStep {
    pub open spec fn model(&self) -> HttpStepModel {
        match self {
            HttpStep::Reply { status, body } => HttpStepModel::Reply(*status, body.model()),
            HttpStep::Answer(r) => HttpStepModel::Answer(r.id.model(), r.method@, r.params.model()),
            HttpStep::Stream(r) => HttpStepModel::Stream(r.id.model(), r.method@, r.params.model()),
        }
    }
}

/// A refusal as an HTTP response.
pub open spec fn failure_step(id: Json, e: ErrorModel) -> HttpStepModel {
    HttpStepModel::Reply(failure_status_spec(e.code), error_response(e, id))
}

/// A refusal of the request itself.
pub open spec fn refused(message: Seq<char>) -> HttpStepModel {
    failure_step(Json::Null, ErrorModel { code: -32600, message, data: None })
}

/// A posted message: checked as stdio checks it, but notifications are
/// refused, the ID must be a string or an integer, and the headers must
/// agree with the message.
pub open spec fn http_step_spec(
    headers: Seq<(String, Option<String>)>,
    tools: Seq<Json>,
    body: Option<Json>,
) -> HttpStepModel {
    match body {
        None => failure_step(Json::Null, ErrorModel { code: -32700, message: "parse error"@, data: None }),
        Some(m) => if !(m.is_object() && m.at("jsonrpc"@) == Json::Str("2.0"@) && m.at("method"@).is_string()
            && (m.get("params"@) matches Some(p) ==> p.is_object())) {
            refused("invalid request"@)
        } else if m.get("id"@) is None {
            refused("HTTP notifications are not supported"@)
        } else if !m.at("id"@).is_id() {
            refused("invalid request ID"@)
        } else {
            let id = m.at("id"@);
            let method = method_of(m);
            let params = params_of(m);
            match headers_spec(headers, method, params) {
                Err(e) => failure_step(id, e),
                Ok(_) => match parse_check(id, params) {
                    Err(e) => failure_step(id, e),
                    Ok(_) => match validate_spec(tools, method, params) {
                        Err(e) => failure_step(id, e),
                        Ok(_) => if method == "tools/call"@ && modern::governed_tool_spec(params) {
                            HttpStepModel::Stream(id, method, params)
                        } else {
                            HttpStepModel::Answer(id, method, params)
                        },
                    },
                },
            }
        },
    }
}

/// A refusal as an HTTP step.
fn failure(id: JsonValue, e: Error) -> (r: HttpStep)
    ensures
        r.model() == failure_step(id.model(), e.model()),
{
    let status = failure_status(e.code);
    HttpStep::Reply { status, body: e.response(id) }
}

/// What a posted message comes to, once its body has been read and parsed
/// (`None` where it is not JSON).
pub fn http_step(headers: &Vec<(String, Option<String>)>, tools: &Vec<JsonValue>, body: Option<JsonValue>) -> (r:
    HttpStep)
    ensures
        r.model() == http_step_spec(
            headers@,
            crate::json::models(tools@),
            match body {
                Some(m) => Some(m.model()),
                None => None,
            },
        ),
{
    let m = match body {
        Some(m) => m,
        None => {
            return failure(JsonValue::Null, Error::new(-32700, "parse error"));
        },
    };
    let jsonrpc_ok = match member_at(Some(&m), "jsonrpc") {
        Some(v) => match v.as_str() {
            Some(s) => str_eq(s, "2.0"),
            None => false,
        },
        None => false,
    };
    let method_ok = match member_at(Some(&m), "method") {
        Some(v) => v.is_string(),
        None => false,
    };
    let params_ok = match m.get("params") {
        Some(p) => p.is_object(),
        None => true,
    };
    if !(m.is_object() && jsonrpc_ok && method_ok && params_ok) {
        return failure(JsonValue::Null, Error::new(-32600, "invalid request"));
    }
    let id = match m.get("id") {
        Some(id) => id.deep_clone(),
        None => {
            return failure(JsonValue::Null, Error::new(-32600, "HTTP notifications are not supported"));
        },
    };
    if !id.is_id() {
        return failure(JsonValue::Null, Error::new(-32600, "invalid request ID"));
    }
    let method = match member_at(Some(&m), "method") {
        Some(v) => match v.as_str() {
            Some(s) => owned(s),
            None => String::new(),
        },
        None => String::new(),
    };
    let params = match m.get("params") {
        Some(p) => p.deep_clone(),
        None => {
            let empty: Vec<(String, JsonValue)> = Vec::new();
            assert(crate::json::members(empty@) =~= Seq::<(Seq<char>, Json)>::empty());
            crate::json::object(empty)
        },
    };
    match validate_headers(headers, method.as_str(), &params) {
        Err(e) => {
            return failure(id, e);
        },
        Ok(_) => {},
    }
    let id_copy = id.deep_clone();
    let request = match Request::parse(id, method, params) {
        Ok(r) => r,
        Err(e) => {
            return failure(id_copy, e);
        },
    };
    match request.validate_method(tools) {
        Err(e) => {
            return failure(id_copy, e);
        },
        Ok(_) => {},
    }
    if request.governed() {
        HttpStep::Stream(request)
    } else {
        HttpStep::Answer(request)
    }
}

} // verus!
