//! `did:oyd` documents derived from a seed.
use vstd::prelude::*;
use crate::base58::{base58_encode, bs58_encode};
use crate::digest::{sha256, sha256_digest};
use crate::text::{cat, owned};

verus! {

/// A DID document.
#[derive(Debug, Clone, PartialEq, Eq)]
pub struct DidDocument {
    pub context: Option<Vec<String>>,
    pub id: String,
    pub controller: String,
    pub public_key_multibase: String,
    pub service_endpoint: Option<String>,
}

/// The SHA-256 multihash prefix: function code and digest length.
pub open spec fn sha256_multihash_prefix() -> Seq<u8> {
    seq![0x12u8, 0x20u8]
}

/// The contexts of a `did:oyd` document.
pub open spec fn oyd_contexts() -> Seq<Seq<char>> {
    seq!["https://www.w3.org/ns/did/v1"@, "https://w3id.org/security/suites/ed25519-2020/v1"@]
}

impl DidDocument {
    /// The `did:oyd` document of a seed: its identifier is the base58 of the
    /// SHA-256 multihash of the seed, its key the base58 of the digest.
    pub fn new_oyd(seed: &[u8], controller: &str) -> (r: DidDocument)
        ensures
            r.id@ == "did:oyd:z"@ + base58_encode(sha256_multihash_prefix() + sha256(seed@)),
            r.public_key_multibase@ == "z"@ + base58_encode(sha256(seed@)),
            r.controller@ == controller@,
            r.context matches Some(c) && crate::text::views(c@) == oyd_contexts(),
            r.service_endpoint is None,
    {
        let digest = sha256_digest(seed);
        let mut multihash: Vec<u8> = Vec::new();
        multihash.push(0x12);
        multihash.push(0x20);
        for i in 0..digest.len()
            invariant
                multihash@ == sha256_multihash_prefix() + digest@.take(i as int),
        {
            multihash.push(digest[i]);
            assert(multihash@ =~= sha256_multihash_prefix() + digest@.take(i + 1));
        }
        assert(digest@.take(digest@.len() as int) =~= digest@);
        let fingerprint = bs58_encode(multihash.as_slice());
        let key = bs58_encode(digest.as_slice());
        let mut context: Vec<String> = Vec::new();
        context.push(owned("https://www.w3.org/ns/did/v1"));
        context.push(owned("https://w3id.org/security/suites/ed25519-2020/v1"));
        assert(crate::text::views(context@) =~= oyd_contexts());
        DidDocument {
            context: Some(context),
            id: cat("did:oyd:z", fingerprint.as_str()),
            controller: owned(controller),
            public_key_multibase: cat("z", key.as_str()),
            service_endpoint: None,
        }
    }

    /// The same document with a service endpoint.
    pub fn with_service_endpoint(self, endpoint: &str) -> (r: DidDocument)
        ensures
            r.context == self.context,
            r.id == self.id,
            r.controller == self.controller,
            r.public_key_multibase == self.public_key_multibase,
            r.service_endpoint matches Some(e) && e@ == endpoint@,
    {
        DidDocument { service_endpoint: Some(owned(endpoint)), ..self }
    }
}

} // verus!
