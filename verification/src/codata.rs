//! The CODATA ODRL service: where it is, and what it answers.
use vstd::prelude::*;
use crate::json::JsonValue;
use crate::text::{cat, trim_end_char, trim_end_matches};

verus! {

/// The payload that the service stored for an anchored DID.
#[derive(Debug, Clone, PartialEq, Eq)]
pub struct StoredPayload {
    pub url: Option<String>,
    pub timestamp: Option<String>,
    pub title: Option<String>,
    pub is_rdf: Option<bool>,
}

/// A DID that the service anchored for a URL.
pub struct AnchoredDid {
    pub did: String,
    pub doc: Option<JsonValue>,
    pub stored_payload: Option<StoredPayload>,
}

/// Where the CODATA ODRL service is.
#[derive(Debug, Clone)]
pub struct CodataOdrlClient {
    base_url: String,
}

impl CodataOdrlClient {
    pub closed spec fn base_url_spec(&self) -> Seq<char> {
        self.base_url@
    }

    /// A client for the service at `base_url`, without trailing slashes.
    pub fn new(base_url: &str) -> (r: CodataOdrlClient)
        ensures
            r.base_url_spec() == trim_end_char(base_url@, '/'),
    {
        CodataOdrlClient { base_url: trim_end_matches(base_url, '/') }
    }

    /// The public CODATA development service.
    pub fn default_service() -> (r: CodataOdrlClient)
        ensures
            r.base_url_spec() == trim_end_char("https://odrl.dev.codata.org"@, '/'),
    {
        CodataOdrlClient::new("https://odrl.dev.codata.org")
    }

    /// The service's base URL.
    pub fn base_url(&self) -> (r: &str)
        ensures
            r@ == self.base_url_spec(),
    {
        self.base_url.as_str()
    }

    /// The endpoint that anchors a DID for a URL.
    pub fn create_from_url_endpoint(&self) -> (r: String)
        ensures
            r@ == self.base_url_spec() + "/api/did/create_from_url"@,
    {
        cat(self.base_url.as_str(), "/api/did/create_from_url")
    }
}

} // verus!
