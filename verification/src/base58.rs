//! Base58 (Bitcoin alphabet) encoding through the `bs58` crate.
use vstd::prelude::*;

verus! {

/// The characters of the Bitcoin base58 alphabet.
pub open spec fn is_base58_char(c: char) -> bool {
    ('1' <= c && c <= '9') || ('A' <= c && c <= 'H') || ('J' <= c && c <= 'N') || ('P' <= c && c
        <= 'Z') || ('a' <= c && c <= 'k') || ('m' <= c && c <= 'z')
}

/// The base58 (Bitcoin alphabet) text of a byte sequence, as `bs58` computes it.
pub uninterp spec fn base58_encode(data: Seq<u8>) -> Seq<char>;

/// The bytes that a base58 text denotes, as `bs58` decodes it, or `None`
/// where it rejects the text.
pub uninterp spec fn base58_decode(text: Seq<char>) -> Option<Seq<u8>>;

/// `bs58::encode(data).into_string()`. The text uses only the alphabet's
/// characters, and `bs58` decodes it back to `data`.
#[verifier::external_body]
pub fn bs58_encode(data: &[u8]) -> (r: String)
    ensures
        r@ == base58_encode(data@),
        forall|i: int| 0 <= i < r@.len() ==> is_base58_char(#[trigger] r@[i]),
        base58_decode(r@) == Some(data@),
{
    bs58::encode(data).into_string()
}

/// `bs58::decode(text).into_vec()`, with its error mapped to `None`.
#[verifier::external_body]
pub fn bs58_decode(text: &str) -> (r: Option<Vec<u8>>)
    ensures
        match r {
            Some(v) => base58_decode(text@) == Some(v@),
            None => base58_decode(text@) is None,
        },
{
    bs58::decode(text).into_vec().ok()
}

} // verus!
