//! URL-safe Base64 with padding, as the service uses it in tokens and paths.

use vstd::prelude::*;

verus! {

/// The URL-safe, padded Base64 text of `data`.
pub uninterp spec fn urlsafe_text(data: Seq<u8>) -> Seq<char>;

/// Whether `c` may occur in URL-safe Base64 text: a letter, a digit, `-`, `_`
/// or the padding character `=`.
pub open spec fn is_urlsafe_symbol(c: char) -> bool {
    ||| 'A' <= c <= 'Z'
    ||| 'a' <= c <= 'z'
    ||| '0' <= c <= '9'
    ||| c == '-'
    ||| c == '_'
    ||| c == '='
}

/// Whether every character of `text` may occur in URL-safe Base64 text.
pub open spec fn is_urlsafe_text(text: Seq<char>) -> bool {
    forall|i: int| 0 <= i < text.len() ==> is_urlsafe_symbol(#[trigger] text[i])
}

/// Makes `base64::DecodeError` known: why a text is no encoding.
#[verifier::external_type_specification]
#[verifier::external_body]
pub struct ExDecodeError(base64::DecodeError);

/// Calls `Engine::encode` of the `base64` crate on its `URL_SAFE` engine.
/// The result is named [`urlsafe_text`]; the contract adds what the engine's
/// documentation gives of every encoding: it is drawn from the URL-safe
/// alphabet and the padding character.
#[verifier::external_body]
pub(crate) fn encode(data: &[u8]) -> (r: String)
    ensures
        r@ == urlsafe_text(data@),
        is_urlsafe_text(r@),
{
    base64::Engine::encode(&base64::engine::general_purpose::URL_SAFE, data)
}

/// Calls `Engine::decode` of the `base64` crate on its `URL_SAFE` engine,
/// which accepts canonical encodings only: a text is decoded exactly when it
/// is the encoding of some bytes, and then to those bytes.
#[verifier::external_body]
pub(crate) fn decode(text: &str) -> (r: Result<Vec<u8>, base64::DecodeError>)
    ensures
        match r {
            Ok(found) => urlsafe_text(found@) == text@ && forall|data: Seq<u8>| #[trigger]
                urlsafe_text(data) == text@ ==> data == found@,
            Err(_) => forall|data: Seq<u8>| #[trigger] urlsafe_text(data) != text@,
        },
{
    base64::Engine::decode(&base64::engine::general_purpose::URL_SAFE, text)
}

/// Decodes URL-safe Base64 text: the bytes whose encoding `text` is, which
/// are unique, or `None` when `text` is the encoding of no bytes.
pub fn decode_urlsafe(text: &str) -> (r: Option<Vec<u8>>)
    ensures
        match r {
            Some(found) => urlsafe_text(found@) == text@ && forall|data: Seq<u8>| #[trigger]
                urlsafe_text(data) == text@ ==> data == found@,
            None => forall|data: Seq<u8>| #[trigger] urlsafe_text(data) != text@,
        },
{
    match decode(text) {
        Ok(data) => Some(data),
        Err(_) => None,
    }
}

} // verus!
