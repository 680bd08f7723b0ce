//! Trusted bridges to the outside encoders and decoders that the library relies on.
use vstd::prelude::*;
use vstd::utf8::*;
use base64::Engine;

verus! {

/// What the `base64` crate's standard engine (RFC 4648 alphabet, canonical
/// padding) makes of `input`: the decoded bytes, or the text (`Display`) of
/// the error it reports.
pub uninterp spec fn base64_standard_decode(input: Seq<char>) -> Result<Seq<u8>, Seq<char>>;

/// Calls `base64::engine::general_purpose::STANDARD.decode(input)` and renders
/// an error with `to_string()`. The contract claims only that the call is
/// deterministic in `input`: its outcome is `base64_standard_decode(input@)`.
#[verifier::external_body]
pub(crate) fn decode_base64_standard(input: &str) -> (r: Result<Vec<u8>, String>)
    ensures
        match base64_standard_decode(input@) {
            Ok(bytes) => r matches Ok(v) && v@ == bytes,
            Err(text) => r matches Err(t) && t@ == text,
        },
{
    base64::engine::general_purpose::STANDARD.decode(input).map_err(|e| e.to_string())
}

/// Calls `String::from_utf8(bytes).ok()`. As std documents, it succeeds exactly
/// on valid UTF-8, and then holds the decoded characters.
#[verifier::external_body]
pub(crate) fn utf8_string(bytes: Vec<u8>) -> (r: Option<String>)
    ensures
        r is Some <==> valid_utf8(bytes@),
        r matches Some(text) ==> text@ == decode_utf8(bytes@),
{
    String::from_utf8(bytes).ok()
}

/// Whether `s` is a UUID in the hyphenated lower-case form `xxxxxxxx-xxxx-xxxx-xxxx-xxxxxxxxxxxx`.
pub open spec fn is_hyphenated_uuid(s: Seq<char>) -> bool {
    &&& s.len() == 36
    &&& forall|i: int|
        0 <= i < 36 ==> if i == 8 || i == 13 || i == 18 || i == 23 {
            s[i] == '-'
        } else {
            ('0' <= #[trigger] s[i] <= '9') || ('a' <= s[i] <= 'f')
        }
}

/// Whether `s` is the text of a random (version 4, RFC 9562 variant) UUID:
/// the version digit is `4` and the variant digit is one of `8`, `9`, `a`, `b`.
pub open spec fn is_uuid_v4_text(s: Seq<char>) -> bool {
    &&& is_hyphenated_uuid(s)
    &&& s[14] == '4'
    &&& (s[19] == '8' || s[19] == '9' || s[19] == 'a' || s[19] == 'b')
}

/// Calls `uuid::Uuid::new_v4()` and renders it with `to_string()`. The value is
/// random, so the contract claims only the shape of the text: `Uuid`'s `Display`
/// writes the hyphenated lower-case form, and `new_v4` sets the version bits to
/// `4` and the variant bits to `10`. The call panics when the operating
/// system's random source fails, which nothing here can rule out.
#[verifier::external_body]
pub(crate) fn random_uuid_text() -> (r: String)
    ensures
        is_uuid_v4_text(r@),
{
    uuid::Uuid::new_v4().to_string()
}

} // verus!
