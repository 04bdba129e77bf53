//! An Ollama chat endpoint reached over TypeDID-governed prompts: the
//! client's configuration, the request it sends and the reply it reads.
use vstd::prelude::*;
use crate::json::{array, member, member_at, object, Json, JsonValue};
use crate::text::{cat, owned, push_str, str_eq, trim_end_char, trim_end_matches};

verus! {

/// What a governed prompt and its reply were, for the record.
#[derive(Debug, Clone, PartialEq, Eq)]
pub struct TypeDidOllamaReport {
    pub prompt_envelope_id: String,
    pub prompt_sender: String,
    pub prompt_recipient: String,
    pub prompt_resource: String,
    pub infer_capability: String,
    pub read_capability: String,
    pub reply_envelope_id: String,
    pub reply_sender: String,
    pub reply_recipient: String,
    pub reply_to: Option<String>,
    pub reply_signature: String,
}

/// Where an Ollama server is, and which model it runs.
#[derive(Debug, Clone)]
pub struct OllamaChatClient {
    base_url: String,
    model: String,
}

/// The body of a non-streaming chat request with one user message.
pub open spec fn chat_request_json(model: Seq<char>, prompt: Seq<char>) -> Json {
    Json::Object(
        seq![
            ("model"@, Json::Str(model)),
            ("stream"@, Json::Bool(false)),
            (
                "messages"@,
                Json::Array(
                    seq![
                        Json::Object(seq![("role"@, Json::Str("user"@)), ("content"@, Json::Str(prompt))]),
                    ],
                ),
            ),
        ],
    )
}

/// The text of a chat reply: `message.content` where it is a string, else
/// the empty text.
pub open spec fn reply_text_spec(response: Json) -> Seq<char> {
    match response.at("message"@).at("content"@).as_str() {
        Some(s) => s,
        None => Seq::empty(),
    }
}

impl OllamaChatClient {
    pub closed spec fn base_url_spec(&self) -> Seq<char> {
        self.base_url@
    }

    pub closed spec fn model_spec(&self) -> Seq<char> {
        self.model@
    }

    /// A client for the server at `base_url`, without trailing slashes.
    pub fn new(base_url: &str, model: &str) -> (r: OllamaChatClient)
        ensures
            r.base_url_spec() == trim_end_char(base_url@, '/'),
            r.model_spec() == model@,
    {
        OllamaChatClient { base_url: trim_end_matches(base_url, '/'), model: owned(model) }
    }

    /// The chat endpoint.
    pub fn chat_url(&self) -> (r: String)
        ensures
            r@ == self.base_url_spec() + "/api/chat"@,
    {
        cat(self.base_url.as_str(), "/api/chat")
    }

    /// The body of the chat request for a prompt.
    pub fn chat_request(&self, prompt: &str) -> (r: JsonValue)
        ensures
            r.model() == chat_request_json(self.model_spec(), prompt@),
    {
        let mut message: Vec<(String, JsonValue)> = Vec::new();
        message.push(member("role", JsonValue::text("user")));
        message.push(member("content", JsonValue::text(prompt)));
        let ghost mv = message@;
        let message = object(message);
        let mut messages: Vec<JsonValue> = Vec::new();
        messages.push(message);
        let ghost msv = messages@;
        let messages = array(messages);
        let mut body: Vec<(String, JsonValue)> = Vec::new();
        body.push(member("model", JsonValue::text(self.model.as_str())));
        body.push(member("stream", JsonValue::Bool(false)));
        body.push(member("messages", messages));
        let ghost bv = body@;
        let r = object(body);
        proof {
            assert(crate::json::members(mv) =~= seq![
                ("role"@, Json::Str("user"@)),
                ("content"@, Json::Str(prompt@)),
            ]);
            assert(msv.map_values(|v: JsonValue| v.model()) =~= chat_request_json(self.model_spec(), prompt@)->Object_0[2].1->Array_0);
            assert(crate::json::members(bv) =~= chat_request_json(self.model_spec(), prompt@)->Object_0);
        }
        r
    }
}

/// The text of a chat reply.
pub fn reply_text(response: &JsonValue) -> (r: String)
    ensures
        r@ == reply_text_spec(response.model()),
{
    match member_at(member_at(Some(response), "message"), "content") {
        Some(v) => match v.as_str() {
            Some(s) => owned(s),
            None => String::new(),
        },
        None => String::new(),
    }
}

/// What the prompt policy decides of a request.
#[derive(Debug, Clone, PartialEq, Eq)]
pub enum PolicyDecision {
    Allow,
    /// Refused, with the reason.
    Deny(String),
}

/// The policy of a governed prompt: only its requester may infer over, or
/// read, its one resource.
#[derive(Debug, Clone, PartialEq, Eq)]
pub struct TypeDidOllamaPolicy {
    pub allowed_subject: String,
    pub allowed_resource: String,
}

/// The actions the prompt policy grants.
pub open spec fn granted_action(action: Seq<char>) -> bool {
    action == "ai:infer"@ || action == "read_sensitive"@
}

impl TypeDidOllamaPolicy {
    /// Allows the requester to infer over or read the prompt's resource;
    /// denies anything else, saying who may not do what to what.
    pub fn check(&self, subject: &str, action: &str, resource: &str) -> (r: PolicyDecision)
        ensures
            (r is Allow) == (subject@ == self.allowed_subject@ && resource@ == self.allowed_resource@
                && granted_action(action@)),
            r matches PolicyDecision::Deny(m) ==> m@ == subject@ + " may not "@ + action@ + " "@ + resource@,
    {
        if str_eq(subject, self.allowed_subject.as_str()) && str_eq(resource, self.allowed_resource.as_str())
            && (str_eq(action, "ai:infer") || str_eq(action, "read_sensitive")) {
            PolicyDecision::Allow
        } else {
            let mut m = cat(subject, " may not ");
            push_str(&mut m, action);
            push_str(&mut m, " ");
            push_str(&mut m, resource);
            PolicyDecision::Deny(m)
        }
    }
}

} // verus!
