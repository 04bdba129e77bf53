use querygraph::agent::canonical::write_python_json;
use querygraph::agent::interop::{
    canonical_json_sha256, did_key_verifying_key, ed25519_multibase, hex_decode,
    hex_decode_would_panic, DidKeyError, HexDecodeError, PyTypeDidEnvelope,
};
use querygraph::json::{JsonNumber, JsonValue};

fn s(v: &str) -> JsonValue {
    JsonValue::String(v.to_string())
}

fn obj(entries: Vec<(&str, JsonValue)>) -> JsonValue {
    JsonValue::Object(entries.into_iter().map(|(k, v)| (k.to_string(), v)).collect())
}

fn minted() -> PyTypeDidEnvelope {
    PyTypeDidEnvelope::signed(
        "querygraph-agent:SupervisorAgent",
        "did:example:recipient",
        "invoke",
        "/v1/answer",
        obj(vec![("bodySha256", s("00"))]),
    )
}

#[test]
fn canonical_json_matches_python_dumps() {
    let value = obj(vec![
        ("b", JsonValue::Number(JsonNumber::PosInt(1))),
        (
            "a",
            JsonValue::Array(vec![s("x"), obj(vec![("z", JsonValue::Null), ("y", JsonValue::Bool(true))])]),
        ),
        ("unicode", s("café ☕")),
    ]);
    let mut rendered = String::new();
    write_python_json(&value, &mut rendered);
    assert_eq!(rendered, r#"{"a":["x",{"y":true,"z":null}],"b":1,"unicode":"caf\u00e9 \u2615"}"#);
}

#[test]
fn canonical_json_escapes_controls_delete_and_astral_characters() {
    let value = obj(vec![(
        "k",
        JsonValue::Array(vec![
            s("tab\there \"q\" \\ \u{7f} 😀"),
            JsonValue::Number(JsonNumber::NegInt(-3)),
            JsonValue::Number(JsonNumber::Float("2.5".into())),
        ]),
    )]);
    let mut rendered = String::new();
    write_python_json(&value, &mut rendered);
    assert_eq!(rendered, r#"{"k":["tab\there \"q\" \\ \u007f \ud83d\ude00",-3,2.5]}"#);
    assert!(rendered.is_ascii());
}

#[test]
fn canonical_digest_of_an_empty_object() {
    assert_eq!(
        canonical_json_sha256(&obj(vec![])),
        "44136fa355b3678a1146ad16f7e8649e94fb4fc21fe77e8310c060f61caaff8a"
    );
}

#[test]
fn did_key_rejects_non_did_key_identifiers() {
    assert!(did_key_verifying_key("did:oyd:zQm123").is_err());
    assert!(did_key_verifying_key("did:key:Qm123").is_err());
}

#[test]
fn did_key_errors_name_their_cause() {
    assert_eq!(did_key_verifying_key("did:oyd:zQm123"), Err(DidKeyError::NotDidKey));
    assert_eq!(did_key_verifying_key("did:key:Qm123"), Err(DidKeyError::UnsupportedMultibase));
    assert_eq!(did_key_verifying_key("did:key:z0OIl"), Err(DidKeyError::InvalidBase58));
    assert_eq!(did_key_verifying_key("did:key:z2"), Err(DidKeyError::KeyLength));
}

#[test]
fn minted_envelope_verifies_and_names_its_did_key() {
    let envelope = minted();
    assert!(envelope.sender.starts_with("did:key:z6Mk"));
    let method = envelope.verification_method.clone().unwrap();
    assert_eq!(method, format!("{}#{}", envelope.sender, &envelope.sender["did:key:".len()..]));
    let key = did_key_verifying_key(&method).unwrap();
    assert_eq!(key.len(), 32);
    assert_eq!(format!("did:key:{}", ed25519_multibase(&key)), envelope.sender);
    assert!(envelope.signature.starts_with("ed25519:"));
    assert!(!envelope.verify_would_panic());
    let report = envelope.verify();
    assert!(report.payload_hash_valid);
    assert!(report.signed);
    assert!(report.signature_valid);
    assert_eq!(report.scheme, "ed25519");
    assert_eq!(report.verification_method, envelope.verification_method);
}

#[test]
fn minting_is_deterministic_per_seed() {
    let a = minted();
    let b = minted();
    assert_eq!(a.sender, b.sender);
    assert_eq!(a.signature, b.signature);
    let other = PyTypeDidEnvelope::signed("other-seed", "r", "a", "/x", obj(vec![]));
    assert_ne!(other.sender, a.sender);
    assert!(other.verify().signature_valid);
}

#[test]
fn tampered_envelopes_fail_verification() {
    let mut tampered = minted();
    tampered.resource = "compartment:other".to_string();
    let report = tampered.verify();
    assert!(report.payload_hash_valid);
    assert!(!report.signature_valid);

    let mut payload = minted();
    payload.payload = obj(vec![("bodySha256", s("01"))]);
    let report = payload.verify();
    assert!(!report.payload_hash_valid);
    assert!(!report.signature_valid);

    let mut unsigned = minted();
    unsigned.signature = "unsigned:sha256:abc".to_string();
    let report = unsigned.verify();
    assert!(!report.signed);
    assert_eq!(report.scheme, "unsigned-digest");

    let mut odd = minted();
    odd.signature = "rsa:00".to_string();
    assert_eq!(odd.verify().scheme, "unknown");

    let mut no_method = minted();
    no_method.verification_method = None;
    assert!(!no_method.verify().signature_valid);
}

#[test]
fn signing_payload_joins_the_label_and_fields() {
    let envelope = minted();
    assert_eq!(
        envelope.signing_payload(),
        format!(
            "querygraph-typedid-signing-v1\n{}\ndid:example:recipient\ninvoke\n/v1/answer\n{}",
            envelope.sender, envelope.payload_sha256
        )
    );
}

#[test]
fn hex_decoding_reads_pairs() {
    assert_eq!(hex_decode("00ff7A"), Ok(vec![0x00, 0xff, 0x7a]));
    assert_eq!(hex_decode("abc"), Err(HexDecodeError::OddLength));
    assert_eq!(hex_decode("zz"), Err(HexDecodeError::InvalidDigit));
    assert_eq!(hex_decode(""), Ok(vec![]));
    assert!(!hex_decode_would_panic("zz"));
    assert!(hex_decode_would_panic("0é0"));
    assert!(!hex_decode_would_panic("é00"));
    assert_eq!(hex_decode("é00"), Err(HexDecodeError::InvalidDigit));
}

#[test]
fn checked_verification_refuses_unsliceable_signatures() {
    let envelope = minted();
    assert_eq!(envelope.verify_checked(), Some(envelope.verify()));
    let mut broken = minted();
    broken.signature = "ed25519:0é0".to_string();
    assert!(broken.verify_would_panic());
    assert_eq!(broken.verify_checked(), None);
}
