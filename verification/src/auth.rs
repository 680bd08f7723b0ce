//! HTTP Basic authentication for the whole site.
use vstd::prelude::*;
use vstd::utf8::*;

use crate::codec::{base64_standard_decode, decode_base64_standard, utf8_string};
use crate::text::{has_prefix, split_once, split_once_at, strip_prefix};

verus! {

/// The scheme prefix of a Basic `Authorization` header value: `"Basic "`.
pub open spec fn basic_scheme() -> Seq<char> {
    seq!['B', 'a', 's', 'i', 'c', ' ']
}

/// Whether decoded `user:password` credentials name the expected user and password.
/// The user part ends at the first `:`; everything after it is the password.
pub open spec fn credentials_accepted(decoded: Seq<char>, user: Seq<char>, pass: Seq<char>) -> bool {
    match split_once_at(decoded, ':') {
        Some((u, p)) => u == user && p == pass,
        None => false,
    }
}

/// Whether an `Authorization` header value carries the expected credentials:
/// it starts with `"Basic "`, the rest is standard Base64 of UTF-8 text, and
/// that text is `user:password` with the expected parts.
pub open spec fn header_accepted(header: Seq<char>, user: Seq<char>, pass: Seq<char>) -> bool {
    &&& has_prefix(header, basic_scheme())
    &&& match base64_standard_decode(header.skip(basic_scheme().len() as int)) {
        Ok(bytes) => valid_utf8(bytes) && credentials_accepted(decode_utf8(bytes), user, pass),
        Err(_) => false,
    }
}

/// What the access check decides for a request.
#[derive(PartialEq, Eq, Structural, Debug, Clone, Copy)]
pub enum AuthDecision {
    /// The request goes through.
    Allow,
    /// The request is refused with `401 Unauthorized` and a Basic challenge.
    Challenge,
    /// The server could not reach its configuration: `500`.
    ConfigError,
}

/// The decision for a request, from the pieces that the server gathers:
/// whether its environment was reachable, the configured user and password
/// (where configured), and the request's `Authorization` header value (where present).
pub open spec fn auth_decision(
    env_available: bool,
    user: Option<Seq<char>>,
    pass: Option<Seq<char>>,
    header: Option<Seq<char>>,
) -> AuthDecision {
    if !env_available {
        AuthDecision::ConfigError
    } else {
        match (user, pass, header) {
            (Some(u), Some(p), Some(h)) => if header_accepted(h, u, p) {
                AuthDecision::Allow
            } else {
                AuthDecision::Challenge
            },
            _ => AuthDecision::Challenge,
        }
    }
}

/// No request goes through unless the server's configuration was reachable,
/// a user and password are configured, and the request carries exactly those
/// credentials in a Basic `Authorization` header.
pub proof fn lemma_only_configured_credentials_pass(
    env_available: bool,
    user: Option<Seq<char>>,
    pass: Option<Seq<char>>,
    header: Option<Seq<char>>,
)
    requires
        auth_decision(env_available, user, pass, header) == AuthDecision::Allow,
    ensures
        env_available,
        user is Some && pass is Some && header is Some,
        header_accepted(header->0, user->0, pass->0),
        has_prefix(header->0, basic_scheme()),
{
}

/// Credentials written as `user:password` are accepted for that user and
/// password, whatever the password holds, as long as the user name has no `:`.
pub proof fn lemma_written_credentials_accepted(user: Seq<char>, pass: Seq<char>)
    requires
        forall|i: int| 0 <= i < user.len() ==> user[i] != ':',
    ensures
        credentials_accepted(user + seq![':'] + pass, user, pass),
{
    let s = user + seq![':'] + pass;
    assert forall|j: int| 0 <= j < user.len() implies s[j] != ':' by {
        assert(s[j] == user[j]);
    }
    assert(s[user.len() as int] == ':');
    crate::text::lemma_first_index_unique(s, ':', user.len() as int);
    assert(s.take(user.len() as int) =~= user);
    assert(s.skip(user.len() + 1int) =~= pass);
}

/// Completeness of the access check: a request whose Basic header carries the
/// Base64 of the UTF-8 text `user:password` for the configured user (without
/// `:`) and password goes through.
pub proof fn lemma_right_header_goes_through(user: Seq<char>, pass: Seq<char>, encoded: Seq<char>)
    requires
        forall|i: int| 0 <= i < user.len() ==> user[i] != ':',
        base64_standard_decode(encoded) == Ok::<Seq<u8>, Seq<char>>(encode_utf8(user + seq![':'] + pass)),
    ensures
        auth_decision(true, Some(user), Some(pass), Some(basic_scheme() + encoded)) == AuthDecision::Allow,
{
    let h = basic_scheme() + encoded;
    assert(h.take(basic_scheme().len() as int) =~= basic_scheme());
    assert(h.skip(basic_scheme().len() as int) =~= encoded);
    encode_utf8_valid_utf8(user + seq![':'] + pass);
    encode_utf8_decode_utf8(user + seq![':'] + pass);
    lemma_written_credentials_accepted(user, pass);
}

fn basic_scheme_str() -> (s: String)
    ensures
        s@ == basic_scheme(),
{
    let mut s = String::new();
    crate::text::push_char(&mut s, 'B');
    crate::text::push_char(&mut s, 'a');
    crate::text::push_char(&mut s, 's');
    crate::text::push_char(&mut s, 'i');
    crate::text::push_char(&mut s, 'c');
    crate::text::push_char(&mut s, ' ');
    assert(s@ =~= basic_scheme());
    s
}

/// Whether decoded `user:password` text names the expected user and password.
pub fn credentials_match(decoded: &str, user: &str, pass: &str) -> (r: bool)
    ensures
        r == credentials_accepted(decoded@, user@, pass@),
{
    match split_once(decoded, ':') {
        Some((u, p)) => {
            let expected_user = crate::text::owned(user);
            let expected_pass = crate::text::owned(pass);
            u == expected_user && p == expected_pass
        },
        None => false,
    }
}

/// Whether the bytes decoded from a Basic header are UTF-8 text naming the
/// expected user and password.
pub fn decoded_credentials_match(bytes: Vec<u8>, user: &str, pass: &str) -> (r: bool)
    ensures
        r == (valid_utf8(bytes@) && credentials_accepted(decode_utf8(bytes@), user@, pass@)),
{
    match utf8_string(bytes) {
        Some(decoded) => credentials_match(decoded.as_str(), user, pass),
        None => false,
    }
}

/// Whether an `Authorization` header value carries the expected credentials.
pub fn header_matches(header: &str, user: &str, pass: &str) -> (r: bool)
    ensures
        r == header_accepted(header@, user@, pass@),
{
    let scheme = basic_scheme_str();
    let encoded = match strip_prefix(header, scheme.as_str()) {
        Some(e) => e,
        None => return false,
    };
    match decode_base64_standard(encoded.as_str()) {
        Ok(bytes) => decoded_credentials_match(bytes, user, pass),
        Err(_) => false,
    }
}

/// Decides whether a request may go through.
pub fn authorize(
    env_available: bool,
    user: Option<&str>,
    pass: Option<&str>,
    header: Option<&str>,
) -> (r: AuthDecision)
    ensures
        r == auth_decision(
            env_available,
            match user {
                Some(u) => Some(u@),
                None => None,
            },
            match pass {
                Some(p) => Some(p@),
                None => None,
            },
            match header {
                Some(h) => Some(h@),
                None => None,
            },
        ),
{
    if !env_available {
        return AuthDecision::ConfigError;
    }
    match (user, pass, header) {
        (Some(u), Some(p), Some(h)) => if header_matches(h, u, p) {
            AuthDecision::Allow
        } else {
            AuthDecision::Challenge
        },
        _ => AuthDecision::Challenge,
    }
}

} // verus!
