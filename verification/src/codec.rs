//! Byte and text encodings used on the wire: base64 (standard and URL-safe), JSON
//! string literals, and UTF-8.
use vstd::prelude::*;
use base64::Engine;

verus! {

/// The base64 encoder's output length for `len` input bytes fits in `usize`
/// (the encoder panics otherwise).
pub open spec fn base64_len_fits(len: nat, padded: bool) -> bool {
    (len / 3) * 4 + (if len % 3 == 0 {
        0nat
    } else if padded {
        4nat
    } else if len % 3 == 1 {
        2nat
    } else {
        3nat
    }) <= usize::MAX
}

/// Base64 with the standard alphabet and padding, as the base64 crate's `STANDARD` engine
/// encodes `bytes`.
pub uninterp spec fn base64_standard_encode(bytes: Seq<u8>) -> Seq<char>;

/// What the base64 crate's `STANDARD` engine decodes from `text`; `None` where it reports
/// an error.
pub uninterp spec fn base64_standard_decode(text: Seq<char>) -> Option<Seq<u8>>;

/// Base64 with the URL-safe alphabet and no padding, as the base64 crate's
/// `URL_SAFE_NO_PAD` engine encodes `bytes`.
pub uninterp spec fn base64_url_encode(bytes: Seq<u8>) -> Seq<char>;

/// What the base64 crate's `URL_SAFE_NO_PAD` engine decodes from `text`; `None` where it
/// reports an error.
pub uninterp spec fn base64_url_decode(text: Seq<char>) -> Option<Seq<u8>>;

/// The JSON string literal that serde_json writes for `s`: quotes around it, with the
/// characters that JSON requires escaped.
pub uninterp spec fn json_string_literal(s: Seq<char>) -> Seq<char>;

/// `base64::engine::general_purpose::STANDARD.encode(bytes)`.
///
/// Trusted: the result is the named standard encoding.
#[verifier::external_body]
pub(crate) fn base64_standard_encode_bytes(bytes: &[u8]) -> (r: String)
    requires
        base64_len_fits(bytes@.len(), true),
    ensures
        r@ == base64_standard_encode(bytes@),
{
    base64::engine::general_purpose::STANDARD.encode(bytes)
}

/// `base64::engine::general_purpose::STANDARD.decode(text)`, its error dropped.
///
/// Trusted: the result is the named standard decoding; text that the same engine
/// encoded decodes to the bytes it came from.
#[verifier::external_body]
pub(crate) fn base64_standard_decode_text(text: &str) -> (r: Option<Vec<u8>>)
    ensures
        r matches Some(v) ==> base64_standard_decode(text@) == Some(v@),
        r is None ==> base64_standard_decode(text@) is None,
        r is Some || forall|b: Seq<u8>| text@ != #[trigger] base64_standard_encode(b),
        r matches Some(v) ==> forall|b: Seq<u8>| text@ == #[trigger] base64_standard_encode(b) ==> v@ == b,
{
    base64::engine::general_purpose::STANDARD.decode(text).ok()
}

/// `base64::engine::general_purpose::URL_SAFE_NO_PAD.encode(bytes)`.
///
/// Trusted: the result is the named URL-safe encoding.
#[verifier::external_body]
pub(crate) fn base64_url_encode_bytes(bytes: &[u8]) -> (r: String)
    requires
        base64_len_fits(bytes@.len(), false),
    ensures
        r@ == base64_url_encode(bytes@),
{
    base64::engine::general_purpose::URL_SAFE_NO_PAD.encode(bytes)
}

/// `base64::engine::general_purpose::URL_SAFE_NO_PAD.decode(text)`, its error dropped.
///
/// Trusted: the result is the named URL-safe decoding; text that the same engine
/// encoded decodes to the bytes it came from.
#[verifier::external_body]
pub(crate) fn base64_url_decode_text(text: &str) -> (r: Option<Vec<u8>>)
    ensures
        r matches Some(v) ==> base64_url_decode(text@) == Some(v@),
        r is None ==> base64_url_decode(text@) is None,
        r is Some || forall|b: Seq<u8>| text@ != #[trigger] base64_url_encode(b),
        r matches Some(v) ==> forall|b: Seq<u8>| text@ == #[trigger] base64_url_encode(b) ==> v@ == b,
{
    base64::engine::general_purpose::URL_SAFE_NO_PAD.decode(text).ok()
}

/// `serde_json::to_string(s)` for a string slice.
///
/// Trusted: serializing a `str` into memory cannot fail (the writer is a `Vec`), and the
/// text is the named JSON string literal.
#[verifier::external_body]
pub(crate) fn json_string(s: &str) -> (r: Result<String, serde_json::Error>)
    ensures
        r is Ok,
        r matches Ok(t) ==> t@ == json_string_literal(s@),
{
    serde_json::to_string(s)
}

#[verifier::external_type_specification]
#[verifier::external_body]
pub struct ExJsonError(serde_json::Error);

/// `String::from_utf8(bytes)`, its error dropped.
///
/// Trusted: std documents that it succeeds exactly on valid UTF-8, and then the string
/// holds the characters that the bytes encode.
#[verifier::external_body]
pub(crate) fn utf8_string(bytes: Vec<u8>) -> (r: Option<String>)
    ensures
        r is Some <==> vstd::utf8::valid_utf8(bytes@),
        r matches Some(s) ==> s@ == vstd::utf8::decode_utf8(bytes@),
{
    String::from_utf8(bytes).ok()
}

} // verus!
