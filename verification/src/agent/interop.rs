//! Cross-language verification of qg-python TypeDID envelopes.
//!
//! qg-python signs envelopes with Ed25519 keys derived from agent seeds
//! (SHA-256 of the seed as the private key) over a canonical signing payload
//! and publishes the verifier as a `did:key` verification method. This module
//! verifies such envelopes with no shared state: it resolves the `did:key`,
//! rebuilds the signing payload from the envelope fields and checks the
//! signature. It also mints envelopes in the same format.
use vstd::prelude::*;
use vstd::utf8::encode_utf8;
use crate::agent::canonical::{py_json, write_python_json};
use crate::agent::ed25519::{
    ed25519_derive_public, ed25519_key_is_valid, ed25519_public_key, ed25519_sign,
    ed25519_signature, ed25519_valid_public_key, ed25519_verifies, ed25519_verify,
};
use crate::base58::{base58_decode, base58_encode, bs58_decode, bs58_encode, is_base58_char};
use crate::digest::{hex_encode, hex_text, sha256, sha256_digest, sha256_hex};
use crate::json::{Json, JsonValue};
use crate::text::{
    clone_opt, opt_view, chars_of, has_prefix, join, join_strings, owned, push_str, slice_string, split_once,
    split_once_char, starts_with,
};

verus! {

/// Version label of the qg-python envelope signing payload.
pub const PY_SIGNING_LABEL: &'static str = "querygraph-typedid-signing-v1";

/// The subset of a qg-python `TypeDidEnvelope` that verification needs.
pub struct PyTypeDidEnvelope {
    pub sender: String,
    pub recipient: String,
    pub action: String,
    pub resource: String,
    pub payload: JsonValue,
    pub payload_sha256: String,
    pub signature: String,
    pub verification_method: Option<String>,
}

/// The outcome of verifying an envelope.
#[derive(Debug, Clone, PartialEq, Eq)]
pub struct PyEnvelopeVerification {
    pub payload_hash_valid: bool,
    pub signed: bool,
    pub signature_valid: bool,
    pub verification_method: Option<String>,
    pub scheme: String,
}

/// Why an identifier does not resolve to an Ed25519 key.
#[derive(Debug, Clone, Copy, PartialEq, Eq)]
pub enum DidKeyError {
    /// The identifier does not start with `did:key:`.
    NotDidKey,
    /// The multibase value does not use the base58btc (`z`) prefix.
    UnsupportedMultibase,
    /// The base58 text does not decode.
    InvalidBase58,
    /// The key is not 32 bytes long.
    KeyLength,
    /// The 32 bytes are not an Ed25519 public key.
    InvalidKey,
}

/// Why a hexadecimal text does not decode.
#[derive(Debug, Clone, Copy, PartialEq, Eq)]
pub enum HexDecodeError {
    OddLength,
    InvalidDigit,
}

pub open spec fn signing_label() -> Seq<char> {
    "querygraph-typedid-signing-v1"@
}

pub open spec fn signature_prefix() -> Seq<char> {
    "ed25519:"@
}

pub open spec fn unsigned_prefix() -> Seq<char> {
    "unsigned:sha256:"@
}

pub open spec fn did_key_prefix() -> Seq<char> {
    "did:key:"@
}

/// The multicodec prefix of an Ed25519 public key.
pub open spec fn ed25519_multicodec() -> Seq<u8> {
    seq![0xEDu8, 0x01u8]
}

/// The lowercase hex SHA-256 of a value's canonical JSON text.
pub open spec fn canonical_digest(v: Json) -> Seq<char> {
    hex_text(sha256(encode_utf8(py_json(v))))
}

/// The value of a hexadecimal digit byte.
pub open spec fn hex_value(b: u8) -> Option<u8> {
    if 48 <= b <= 57 {
        Some((b - 48) as u8)
    } else if 97 <= b <= 102 {
        Some((b - 87) as u8)
    } else if 65 <= b <= 70 {
        Some((b - 55) as u8)
    } else {
        None
    }
}

/// What `u8::from_str_radix(pair, 16)` gives for a two-byte pair: two
/// hexadecimal digits, or a `+` sign and one digit.
pub open spec fn hex_pair(b0: u8, b1: u8) -> Option<u8> {
    match (hex_value(b0), hex_value(b1)) {
        (Some(h), Some(l)) => Some((h * 16 + l) as u8),
        (None, Some(l)) => if b0 == 43 {
            Some(l)
        } else {
            None
        },
        _ => None,
    }
}

/// The bytes that consecutive pairs denote, or `None` at the first invalid pair.
pub open spec fn hex_pairs(bytes: Seq<u8>) -> Option<Seq<u8>>
    decreases bytes.len(),
{
    if bytes.len() < 2 {
        Some(Seq::empty())
    } else {
        match hex_pair(bytes[0], bytes[1]) {
            None => None,
            Some(v) => match hex_pairs(bytes.subrange(2, bytes.len() as int)) {
                None => None,
                Some(rest) => Some(seq![v] + rest),
            },
        }
    }
}

/// Decoding of hexadecimal text given as UTF-8 bytes.
pub open spec fn hex_decoded(bytes: Seq<u8>) -> Result<Seq<u8>, HexDecodeError> {
    if bytes.len() % 2 == 1 {
        Err(HexDecodeError::OddLength)
    } else {
        match hex_pairs(bytes) {
            Some(v) => Ok(v),
            None => Err(HexDecodeError::InvalidDigit),
        }
    }
}

/// Every pair before offset `k` is valid.
pub open spec fn pairs_valid_before(bytes: Seq<u8>, k: int) -> bool {
    forall|j: int| 0 <= j < k && j % 2 == 0 ==> #[trigger] hex_pair(bytes[j], bytes[j + 1]) is Some
}

/// Decoding slices the text at every even byte offset up to the first
/// invalid pair; it panics where such a slice ends inside a character.
pub open spec fn hex_decode_panics(bytes: Seq<u8>) -> bool {
    bytes.len() % 2 == 0 && exists|k: int|
        0 <= k && k + 2 <= bytes.len() && k % 2 == 0 && pairs_valid_before(bytes, k) && hex_pair(
            bytes[k],
            bytes[k + 1],
        ) is None && !vstd::utf8::is_char_boundary(bytes, k + 2)
}

/// The part of an identifier before its first `#` (`split('#').next()`).
pub open spec fn did_identifier(did: Seq<char>) -> Seq<char> {
    match split_once(did, '#') {
        Some(p) => p.0,
        None => did,
    }
}

/// A key with its multicodec prefix removed, if it has one.
pub open spec fn strip_multicodec(raw: Seq<u8>) -> Seq<u8> {
    if raw.len() >= 2 && raw[0] == 0xED && raw[1] == 0x01 {
        raw.subrange(2, raw.len() as int)
    } else {
        raw
    }
}

/// The Ed25519 public key that a `did:key` identifier names.
pub open spec fn did_key_resolve(did: Seq<char>) -> Result<Seq<u8>, DidKeyError> {
    let id = did_identifier(did);
    if !starts_with(id, did_key_prefix()) {
        Err(DidKeyError::NotDidKey)
    } else {
        let mb = id.subrange(did_key_prefix().len() as int, id.len() as int);
        if mb.len() == 0 || mb[0] != 'z' {
            Err(DidKeyError::UnsupportedMultibase)
        } else {
            match base58_decode(mb.drop_first()) {
                None => Err(DidKeyError::InvalidBase58),
                Some(raw) => {
                    let k = strip_multicodec(raw);
                    if k.len() != 32 {
                        Err(DidKeyError::KeyLength)
                    } else if !ed25519_valid_public_key(k) {
                        Err(DidKeyError::InvalidKey)
                    } else {
                        Ok(k)
                    }
                },
            }
        }
    }
}

/// The `z…` multibase form of an Ed25519 public key.
pub open spec fn multibase_of(key: Seq<u8>) -> Seq<char> {
    seq!['z'] + base58_encode(ed25519_multicodec() + key)
}

impl PyTypeDidEnvelope {
    /// The canonical signing payload: the label and five fields, one per line.
    pub open spec fn payload_text(&self) -> Seq<char> {
        join(
            seq![
                signing_label(),
                self.sender@,
                self.recipient@,
                self.action@,
                self.resource@,
                self.payload_sha256@,
            ],
            seq!['\n'],
        )
    }

    /// The payload hash recomputes.
    pub open spec fn hash_valid(&self) -> bool {
        canonical_digest(self.payload.model()) == self.payload_sha256@
    }

    /// The signature claims the Ed25519 scheme.
    pub open spec fn is_signed(&self) -> bool {
        starts_with(self.signature@, signature_prefix())
    }

    /// The hexadecimal part of an Ed25519 signature.
    pub open spec fn signature_hex(&self) -> Seq<char> {
        self.signature@.subrange(signature_prefix().len() as int, self.signature@.len() as int)
    }

    /// The signature verifies under the key named by `method`.
    pub open spec fn signature_matches_spec(&self, method: Seq<char>) -> bool {
        match did_key_resolve(method) {
            Err(_) => false,
            Ok(key) => self.is_signed() && match hex_decoded(encode_utf8(self.signature_hex())) {
                Err(_) => false,
                Ok(bytes) => bytes.len() == 64 && ed25519_verifies(
                    key,
                    encode_utf8(self.payload_text()),
                    bytes,
                ),
            },
        }
    }

    /// The payload hash recomputes, the envelope is signed and the signature
    /// verifies under its verification method.
    pub open spec fn signature_valid_spec(&self) -> bool {
        self.hash_valid() && self.is_signed() && match self.verification_method {
            Some(m) => self.signature_matches_spec(m@),
            None => false,
        }
    }

    /// Verification decodes the signature's hexadecimal text where it panics.
    pub open spec fn verify_panics(&self) -> bool {
        self.hash_valid() && self.is_signed() && match self.verification_method {
            Some(m) => did_key_resolve(m@) is Ok && hex_decode_panics(
                encode_utf8(self.signature_hex()),
            ),
            None => false,
        }
    }

    /// The scheme that the signature's prefix names.
    pub open spec fn scheme_spec(&self) -> Seq<char> {
        if self.is_signed() {
            "ed25519"@
        } else if starts_with(self.signature@, unsigned_prefix()) {
            "unsigned-digest"@
        } else {
            "unknown"@
        }
    }
}

/// Lowercase hex SHA-256 of the payload rendered exactly as Python's
/// `json.dumps(payload, sort_keys=True, separators=(",", ":"))`.
pub fn canonical_json_sha256(payload: &JsonValue) -> (r: String)
    ensures
        r@ == canonical_digest(payload.model()),
{
    let mut rendered = String::new();
    write_python_json(payload, &mut rendered);
    assert(rendered@ =~= py_json(payload.model()));
    sha256_hex(rendered.as_str().as_bytes())
}

/// The value of one hexadecimal digit byte.
fn hex_value_of(b: u8) -> (r: Option<u8>)
    ensures
        r == hex_value(b),
{
    if 48 <= b && b <= 57 {
        Some(b - 48)
    } else if 97 <= b && b <= 102 {
        Some(b - 87)
    } else if 65 <= b && b <= 70 {
        Some(b - 55)
    } else {
        None
    }
}

/// Decodes a hexadecimal text two bytes at a time (`hex_decode`).
pub fn hex_decode(text: &str) -> (r: Result<Vec<u8>, HexDecodeError>)
    requires
        !hex_decode_panics(encode_utf8(text@)),
    ensures
        match r {
            Ok(v) => hex_decoded(encode_utf8(text@)) == Ok::<Seq<u8>, HexDecodeError>(v@),
            Err(e) => hex_decoded(encode_utf8(text@)) == Err::<Seq<u8>, HexDecodeError>(e),
        },
{
    let bytes = text.as_bytes();
    let n = bytes.len();
    if n % 2 == 1 {
        return Err(HexDecodeError::OddLength);
    }
    let mut out: Vec<u8> = Vec::new();
    let mut i: usize = 0;
    assert(bytes@.subrange(0, n as int) =~= bytes@);
    proof {
        match hex_pairs(bytes@) {
            Some(r) => {
                assert(out@ + r =~= r);
            },
            None => {},
        }
    }
    while i < n
        invariant
            bytes@ == encode_utf8(text@),
            n == bytes@.len(),
            n % 2 == 0,
            i % 2 == 0,
            i <= n,
            hex_pairs(bytes@) == match hex_pairs(bytes@.subrange(i as int, n as int)) {
                Some(rest) => Some(out@ + rest),
                None => None,
            },
        decreases n - i,
    {
        let ghost rest = bytes@.subrange(i as int, n as int);
        assert(rest[0] == bytes@[i as int] && rest[1] == bytes@[i + 1]);
        assert(rest.subrange(2, rest.len() as int) =~= bytes@.subrange(i + 2, n as int));
        let b0 = bytes[i];
        let b1 = bytes[i + 1];
        let h0 = hex_value_of(b0);
        let h1 = hex_value_of(b1);
        let v: u8 = match (h0, h1) {
            (Some(h), Some(l)) => {
                assert(h * 16 + l < 256);
                h * 16 + l
            },
            (None, Some(l)) => {
                if b0 == 43 {
                    l
                } else {
                    return Err(HexDecodeError::InvalidDigit);
                }
            },
            _ => {
                return Err(HexDecodeError::InvalidDigit);
            },
        };
        assert(hex_pair(b0, b1) == Some(v));
        let ghost prev = out@;
        out.push(v);
        proof {
            assert forall|r2: Seq<u8>| prev + (seq![v] + r2) == out@ + r2 by {
                assert(prev + (seq![v] + r2) =~= out@ + r2);
            }
        }
        i = i + 2;
    }
    assert(bytes@.subrange(n as int, n as int) =~= Seq::<u8>::empty());
    assert(out@ + Seq::<u8>::empty() =~= out@);
    Ok(out)
}

/// ASCII characters as bytes.
pub open spec fn ascii_codes(s: Seq<char>) -> Seq<u8> {
    s.map_values(|c: char| c as u8)
}

pub proof fn lemma_hex_text_concat(a: Seq<u8>, b: Seq<u8>)
    ensures
        hex_text(a + b) == hex_text(a) + hex_text(b),
    decreases b.len(),
{
    if b.len() == 0 {
        assert(a + b =~= a);
        assert(hex_text(a) + hex_text(b) =~= hex_text(a));
    } else {
        lemma_hex_text_concat(a, b.drop_last());
        assert((a + b).drop_last() =~= a + b.drop_last());
        assert((a + b).last() == b.last());
        assert(hex_text(a + b) =~= hex_text(a) + hex_text(b));
    }
}

/// Hex text is ASCII, and its pairs decode back to the bytes.
pub proof fn lemma_hex_roundtrip(b: Seq<u8>)
    ensures
        vstd::utf8::is_ascii_chars(hex_text(b)),
        encode_utf8(hex_text(b)) == ascii_codes(hex_text(b)),
        hex_pairs(ascii_codes(hex_text(b))) == Some(b),
        ascii_codes(hex_text(b)).len() == 2 * b.len(),
        forall|j: int|
            0 <= j && j + 1 < ascii_codes(hex_text(b)).len() && j % 2 == 0 ==> #[trigger] hex_pair(
                ascii_codes(hex_text(b))[j],
                ascii_codes(hex_text(b))[j + 1],
            ) is Some,
    decreases b.len(),
{
    crate::digest::lemma_hex_text_len(b);
    if b.len() == 0 {
        assert(ascii_codes(hex_text(b)) =~= Seq::<u8>::empty());
        assert(encode_utf8(hex_text(b)) =~= Seq::<u8>::empty()) by {
            assert(hex_text(b) =~= Seq::<char>::empty());
        }
    } else {
        let rest = b.drop_first();
        lemma_hex_roundtrip(rest);
        lemma_hex_text_concat(seq![b[0]], rest);
        assert(seq![b[0]] + rest =~= b);
        assert(hex_text(seq![b[0]]) =~= crate::digest::hex_byte(b[0])) by {
            assert(seq![b[0]].drop_last() =~= Seq::<u8>::empty());
        }
        let t = hex_text(b);
        let c = ascii_codes(t);
        let hi = (b[0] / 16) as nat;
        let lo = (b[0] % 16) as nat;
        assert(t[0] == crate::digest::hex_digit(hi));
        assert(t[1] == crate::digest::hex_digit(lo));
        assert(hex_value(c[0]) == Some(hi as u8));
        assert(hex_value(c[1]) == Some(lo as u8));
        assert(hex_pair(c[0], c[1]) == Some(b[0]));
        assert(c.subrange(2, c.len() as int) =~= ascii_codes(hex_text(rest)));
        assert(seq![b[0]] + rest =~= b);
        assert(vstd::utf8::is_ascii_chars(t));
        vstd::utf8::is_ascii_chars_encode_utf8(t);
        assert(encode_utf8(t) =~= c);
        assert forall|j: int| 0 <= j && j + 1 < c.len() && j % 2 == 0 implies #[trigger] hex_pair(
            c[j],
            c[j + 1],
        ) is Some by {
            if j >= 2 {
                let r = ascii_codes(hex_text(rest));
                assert(c[j] == r[j - 2]);
                assert(c[j + 1] == r[j - 1]);
                assert(hex_pair(r[j - 2], r[(j - 2) + 1]) is Some);
            }
        }
    }
}

/// Whether `hex_decode` would panic on this text: some pair before the
/// first invalid one ends inside a multi-byte character.
pub fn hex_decode_would_panic(text: &str) -> (r: bool)
    ensures
        r == hex_decode_panics(encode_utf8(text@)),
{
    let bytes = text.as_bytes();
    let n = bytes.len();
    proof {
        vstd::utf8::encode_utf8_valid_utf8(text@);
    }
    if n % 2 == 1 {
        return false;
    }
    let mut k: usize = 0;
    while k < n
        invariant
            bytes@ == encode_utf8(text@),
            vstd::utf8::valid_utf8(bytes@),
            n == bytes@.len(),
            n % 2 == 0,
            k % 2 == 0,
            k <= n,
            pairs_valid_before(bytes@, k as int),
        decreases n - k,
    {
        assert(k + 2 <= n);
        let valid = match (hex_value_of(bytes[k]), hex_value_of(bytes[k + 1])) {
            (Some(_), Some(_)) => true,
            (None, Some(_)) => bytes[k] == 43,
            _ => false,
        };
        assert(valid == (hex_pair(bytes@[k as int], bytes@[k + 1]) is Some));
        if !valid {
            let inside = k + 2 < n && 0x80 <= bytes[k + 2] && bytes[k + 2] <= 0xbf;
            proof {
                let b = bytes@;
                if k + 2 < n {
                    vstd::utf8::is_char_boundary_iff_not_is_continuation_byte(b, k + 2);
                } else {
                    vstd::utf8::is_char_boundary_start_end_of_seq(b);
                }
                if inside {
                    assert(0 <= k && k + 2 <= b.len() && k % 2 == 0 && pairs_valid_before(b, k as int)
                        && hex_pair(b[k as int], b[k + 1]) is None && !vstd::utf8::is_char_boundary(b, k + 2));
                } else {
                    assert forall|j: int|
                        0 <= j && j + 2 <= b.len() && j % 2 == 0 && pairs_valid_before(b, j) && hex_pair(
                            b[j],
                            b[j + 1],
                        ) is None implies vstd::utf8::is_char_boundary(b, j + 2) by {
                        if j < k {
                            assert(hex_pair(b[j], b[j + 1]) is Some);
                        } else if j > k {
                            assert(hex_pair(b[k as int], b[k + 1]) is Some);
                        }
                    }
                }
            }
            return inside;
        }
        proof {
            assert forall|j: int| 0 <= j < k + 2 && j % 2 == 0 implies #[trigger] hex_pair(
                bytes@[j],
                bytes@[j + 1],
            ) is Some by {
                if j < k {
                    assert(pairs_valid_before(bytes@, k as int));
                }
            }
        }
        k = k + 2;
    }
    proof {
        let b = bytes@;
        assert forall|j: int|
            0 <= j && j + 2 <= b.len() && j % 2 == 0 && pairs_valid_before(b, j) implies hex_pair(
            b[j],
            b[j + 1],
        ) is Some by {
            assert(j < k);
        }
    }
    false
}

/// Resolves a `did:key:z…` identifier (optionally `#fragment`-qualified) to
/// an Ed25519 public key.
pub fn did_key_verifying_key(did: &str) -> (r: Result<Vec<u8>, DidKeyError>)
    ensures
        match r {
            Ok(k) => did_key_resolve(did@) == Ok::<Seq<u8>, DidKeyError>(k@),
            Err(e) => did_key_resolve(did@) == Err::<Seq<u8>, DidKeyError>(e),
        },
{
    let identifier = match split_once_char(did, '#') {
        Some((a, _b)) => a,
        None => owned(did),
    };
    assert(identifier@ == did_identifier(did@));
    if !has_prefix(identifier.as_str(), "did:key:") {
        return Err(DidKeyError::NotDidKey);
    }
    proof {
        reveal_strlit("did:key:");
    }
    let ic = chars_of(identifier.as_str());
    let multibase = slice_string(&ic, 8, ic.len());
    let mc = chars_of(multibase.as_str());
    if mc.len() == 0 || mc[0] != 'z' {
        return Err(DidKeyError::UnsupportedMultibase);
    }
    let base58 = slice_string(&mc, 1, mc.len());
    assert(base58@ =~= multibase@.drop_first());
    let raw = match bs58_decode(base58.as_str()) {
        Some(v) => v,
        None => {
            return Err(DidKeyError::InvalidBase58);
        },
    };
    let key = strip_multicodec_bytes(&raw);
    if key.len() != 32 {
        return Err(DidKeyError::KeyLength);
    }
    if !ed25519_key_is_valid(&key) {
        return Err(DidKeyError::InvalidKey);
    }
    Ok(key)
}

/// A key with its multicodec prefix removed, if it has one.
fn strip_multicodec_bytes(raw: &Vec<u8>) -> (r: Vec<u8>)
    ensures
        r@ == strip_multicodec(raw@),
{
    let start: usize = if raw.len() >= 2 && raw[0] == 0xED && raw[1] == 0x01 {
        2
    } else {
        0
    };
    let mut r: Vec<u8> = Vec::new();
    let mut i = start;
    while i < raw.len()
        invariant
            start <= i <= raw@.len(),
            r@ == raw@.subrange(start as int, i as int),
        decreases raw.len() - i,
    {
        r.push(raw[i]);
        assert(raw@.subrange(start as int, i + 1) =~= raw@.subrange(start as int, i as int).push(
            raw@[i as int],
        ));
        i = i + 1;
    }
    assert(start == 0 ==> raw@.subrange(0, raw@.len() as int) =~= raw@);
    r
}

/// The multibase (base58btc) form of an Ed25519 public key with its
/// multicodec prefix: the `z6Mk…` form used in `did:key`.
pub fn ed25519_multibase(key: &Vec<u8>) -> (r: String)
    ensures
        r@ == multibase_of(key@),
        r@.len() > 0,
        r@[0] == 'z',
        forall|i: int| 1 <= i < r@.len() ==> is_base58_char(#[trigger] r@[i]),
        base58_decode(r@.drop_first()) == Some(ed25519_multicodec() + key@),
{
    let mut raw: Vec<u8> = Vec::new();
    raw.push(0xED);
    raw.push(0x01);
    let mut i: usize = 0;
    while i < key.len()
        invariant
            raw@ == ed25519_multicodec() + key@.take(i as int),
            i <= key@.len(),
        decreases key.len() - i,
    {
        raw.push(key[i]);
        assert(key@.take(i + 1) =~= key@.take(i as int).push(key@[i as int]));
        assert(ed25519_multicodec() + key@.take(i + 1) =~= (ed25519_multicodec() + key@.take(i as int)).push(key@[i as int]));
        i = i + 1;
    }
    assert(key@.take(key@.len() as int) =~= key@);
    let encoded = bs58_encode(raw.as_slice());
    let mut r = String::new();
    crate::text::push_char(&mut r, 'z');
    push_str(&mut r, encoded.as_str());
    assert(r@.drop_first() =~= encoded@);
    r
}

/// The `did:key` identifier `did:key:<mb>#<mb>` of a multibase key resolves
/// to that key.
pub proof fn lemma_did_key_of_multibase(mb: Seq<char>, key: Seq<u8>)
    requires
        mb.len() > 0,
        mb[0] == 'z',
        forall|i: int| 1 <= i < mb.len() ==> is_base58_char(#[trigger] mb[i]),
        base58_decode(mb.drop_first()) == Some(ed25519_multicodec() + key),
        key.len() == 32,
        ed25519_valid_public_key(key),
    ensures
        did_key_resolve(did_key_prefix() + mb + seq!['#'] + mb) == Ok::<Seq<u8>, DidKeyError>(key),
{
    reveal_strlit("did:key:");
    let m = did_key_prefix() + mb + seq!['#'] + mb;
    let k: int = (did_key_prefix().len() + mb.len()) as int;
    assert(m[k] == '#');
    assert forall|j: int| 0 <= j < k implies m[j] != '#' by {
        if j > 8 {
            assert(m[j] == mb[j - 8]);
            assert(is_base58_char(mb[j - 8]));
        } else if j == 8 {
            assert(m[j] == mb[0]);
        }
    }
    crate::text::lemma_first_index(m, '#', k);
    let id = did_identifier(m);
    assert(id =~= did_key_prefix() + mb);
    assert(id.subrange(0, 8) =~= did_key_prefix());
    assert(id.subrange(8, id.len() as int) =~= mb);
    assert(strip_multicodec(ed25519_multicodec() + key) =~= key);
}

/// Hexadecimal decoding undoes hexadecimal encoding: the text of any bytes
/// decodes back to them, and decoding it does not panic.
pub proof fn law_hex_round_trip(sig: Seq<u8>)
    ensures
        hex_decoded(encode_utf8(hex_text(sig))) == Ok::<Seq<u8>, HexDecodeError>(sig),
        !hex_decode_panics(encode_utf8(hex_text(sig))),
{
    lemma_hex_roundtrip(sig);
    let codes = ascii_codes(hex_text(sig));
    assert(codes.len() % 2 == 0);
    if hex_decode_panics(codes) {
        let k2 = choose|k2: int|
            0 <= k2 && k2 + 2 <= codes.len() && k2 % 2 == 0 && pairs_valid_before(codes, k2)
                && hex_pair(codes[k2], codes[k2 + 1]) is None
                && !vstd::utf8::is_char_boundary(codes, k2 + 2);
        assert(hex_pair(codes[k2], codes[k2 + 1]) is Some);
    }
}

impl PyTypeDidEnvelope {
    /// Rebuilds the canonical signing payload the Python side signed.
    pub fn signing_payload(&self) -> (r: String)
        ensures
            r@ == self.payload_text(),
    {
        let mut parts: Vec<String> = Vec::new();
        parts.push(owned("querygraph-typedid-signing-v1"));
        parts.push(self.sender.clone());
        parts.push(self.recipient.clone());
        parts.push(self.action.clone());
        parts.push(self.resource.clone());
        parts.push(self.payload_sha256.clone());
        let r = join_strings(&parts, "\n");
        proof {
            reveal_strlit("\n");
            assert("\n"@ =~= seq!['\n']);
            assert(parts@.map_values(|p: String| p@) =~= seq![
                signing_label(),
                self.sender@,
                self.recipient@,
                self.action@,
                self.resource@,
                self.payload_sha256@,
            ]);
        }
        r
    }

    /// Mints a signed envelope in the qg-python interop format. The Ed25519
    /// secret is the SHA-256 of `sender_seed`, as qg-python's
    /// `Ed25519Signer.from_seed` derives it, so either side verifies what the
    /// other signs. A minted envelope always verifies.
    pub fn signed(
        sender_seed: &str,
        recipient: &str,
        action: &str,
        resource: &str,
        payload: JsonValue,
    ) -> (r: Self)
        ensures
            ({
                let secret = sha256(encode_utf8(sender_seed@));
                let mb = multibase_of(ed25519_public_key(secret));
                &&& r.sender@ == did_key_prefix() + mb
                &&& r.verification_method matches Some(m) && m@ == did_key_prefix() + mb + seq!['#']
                    + mb
                &&& r.signature@ == signature_prefix() + hex_text(
                    ed25519_signature(secret, encode_utf8(r.payload_text())),
                )
            }),
            r.recipient@ == recipient@,
            r.action@ == action@,
            r.resource@ == resource@,
            r.payload == payload,
            r.payload_sha256@ == canonical_digest(payload.model()),
            !r.verify_panics(),
            r.signature_valid_spec(),
    {
        let secret = sha256_digest(sender_seed.as_bytes());
        let public = ed25519_derive_public(&secret);
        let multibase = ed25519_multibase(&public);
        let mut sender = owned("did:key:");
        push_str(&mut sender, multibase.as_str());
        let mut method = sender.clone();
        crate::text::push_char(&mut method, '#');
        push_str(&mut method, multibase.as_str());
        let payload_sha256 = canonical_json_sha256(&payload);
        let mut envelope = PyTypeDidEnvelope {
            sender,
            recipient: owned(recipient),
            action: owned(action),
            resource: owned(resource),
            payload,
            payload_sha256,
            signature: String::new(),
            verification_method: Some(method),
        };
        let message = envelope.signing_payload();
        let signature = ed25519_sign(&secret, message.as_str().as_bytes());
        let mut text = owned("ed25519:");
        let hex = hex_encode(signature.as_slice());
        push_str(&mut text, hex.as_str());
        envelope.signature = text;
        proof {
            reveal_strlit("did:key:");
            reveal_strlit("ed25519:");
            let mb = multibase@;
            let m = did_key_prefix() + mb + seq!['#'] + mb;
            assert(method@ =~= m);
            assert(envelope.payload_text() == message@);
            lemma_did_key_of_multibase(mb, public@);
            law_hex_round_trip(signature@);
            assert(envelope.signature@.subrange(0, 8) =~= signature_prefix());
            assert(envelope.signature_hex() =~= hex@);
            assert(envelope.signature_matches_spec(m));
        }
        envelope
    }

    /// Whether the signature verifies under the key that `verification_method`
    /// names.
    fn signature_matches(&self, verification_method: &str) -> (r: bool)
        requires
            !(did_key_resolve(verification_method@) is Ok && self.is_signed() && hex_decode_panics(
                encode_utf8(self.signature_hex()),
            )),
        ensures
            r == self.signature_matches_spec(verification_method@),
    {
        let key = match did_key_verifying_key(verification_method) {
            Ok(k) => k,
            Err(_) => {
                return false;
            },
        };
        if !has_prefix(self.signature.as_str(), "ed25519:") {
            return false;
        }
        proof {
            reveal_strlit("ed25519:");
        }
        let sc = chars_of(self.signature.as_str());
        let hex = slice_string(&sc, 8, sc.len());
        assert(hex@ == self.signature_hex());
        let bytes = match hex_decode(hex.as_str()) {
            Ok(b) => b,
            Err(_) => {
                return false;
            },
        };
        if bytes.len() != 64 {
            return false;
        }
        let payload = self.signing_payload();
        ed25519_verify(&key, payload.as_str().as_bytes(), &bytes)
    }

    /// Whether `verify` would panic on this envelope.
    pub fn verify_would_panic(&self) -> (r: bool)
        ensures
            r == self.verify_panics(),
    {
        let digest = canonical_json_sha256(&self.payload);
        if digest != self.payload_sha256 {
            return false;
        }
        if !has_prefix(self.signature.as_str(), "ed25519:") {
            return false;
        }
        let method = match &self.verification_method {
            Some(m) => m,
            None => {
                return false;
            },
        };
        if did_key_verifying_key(method.as_str()).is_err() {
            return false;
        }
        proof {
            reveal_strlit("ed25519:");
        }
        let sc = chars_of(self.signature.as_str());
        let hex = slice_string(&sc, 8, sc.len());
        assert(hex@ == self.signature_hex());
        hex_decode_would_panic(hex.as_str())
    }

    /// Checks the payload hash and the Ed25519 signature, or gives `None`
    /// where decoding the signature's hexadecimal text would panic.
    pub fn verify_checked(&self) -> (r: Option<PyEnvelopeVerification>)
        ensures
            match r {
                None => self.verify_panics(),
                Some(v) => {
                    &&& !self.verify_panics()
                    &&& v.payload_hash_valid == self.hash_valid()
                    &&& v.signed == self.is_signed()
                    &&& v.signature_valid == self.signature_valid_spec()
                    &&& opt_view(v.verification_method) == opt_view(self.verification_method)
                    &&& v.scheme@ == self.scheme_spec()
                },
            },
    {
        if self.verify_would_panic() {
            None
        } else {
            Some(self.verify())
        }
    }

    /// Checks the payload hash and the Ed25519 signature.
    pub fn verify(&self) -> (r: PyEnvelopeVerification)
        requires
            !self.verify_panics(),
        ensures
            r.payload_hash_valid == self.hash_valid(),
            r.signed == self.is_signed(),
            r.signature_valid == self.signature_valid_spec(),
            opt_view(r.verification_method) == opt_view(self.verification_method),
            r.scheme@ == self.scheme_spec(),
    {
        let digest = canonical_json_sha256(&self.payload);
        let payload_hash_valid = digest == self.payload_sha256;
        let signed = has_prefix(self.signature.as_str(), "ed25519:");
        let scheme = if signed {
            owned("ed25519")
        } else if has_prefix(self.signature.as_str(), "unsigned:sha256:") {
            owned("unsigned-digest")
        } else {
            owned("unknown")
        };
        let signature_valid = payload_hash_valid && signed && match &self.verification_method {
            Some(method) => self.signature_matches(method.as_str()),
            None => false,
        };
        PyEnvelopeVerification {
            payload_hash_valid,
            signed,
            signature_valid,
            verification_method: clone_opt(&self.verification_method),
            scheme,
        }
    }
}

} // verus!
