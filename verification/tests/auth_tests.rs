use base64::Engine;
use yosegaki::auth::{authorize, credentials_match, decoded_credentials_match, header_matches, AuthDecision};

#[test]
fn right_credentials_are_allowed() {
    // "user:pass"
    assert_eq!(
        authorize(true, Some("user"), Some("pass"), Some("Basic dXNlcjpwYXNz")),
        AuthDecision::Allow
    );
}

#[test]
fn wrong_password_is_challenged() {
    assert_eq!(
        authorize(true, Some("user"), Some("secret"), Some("Basic dXNlcjpwYXNz")),
        AuthDecision::Challenge
    );
}

#[test]
fn missing_configuration_or_header_is_challenged() {
    assert_eq!(authorize(true, None, Some("pass"), Some("Basic dXNlcjpwYXNz")), AuthDecision::Challenge);
    assert_eq!(authorize(true, Some("user"), None, Some("Basic dXNlcjpwYXNz")), AuthDecision::Challenge);
    assert_eq!(authorize(true, Some("user"), Some("pass"), None), AuthDecision::Challenge);
}

#[test]
fn unreachable_environment_is_a_configuration_error() {
    assert_eq!(
        authorize(false, Some("user"), Some("pass"), Some("Basic dXNlcjpwYXNz")),
        AuthDecision::ConfigError
    );
}

#[test]
fn other_schemes_and_bad_encodings_are_refused() {
    assert!(!header_matches("Bearer dXNlcjpwYXNz", "user", "pass"));
    assert!(!header_matches("basic dXNlcjpwYXNz", "user", "pass"));
    assert!(!header_matches("Basic not*base64", "user", "pass"));
    // 0xFF is not UTF-8
    assert!(!header_matches("Basic /w==", "user", "pass"));
    // "userpass": no colon
    assert!(!header_matches("Basic dXNlcnBhc3M=", "user", "pass"));
}

#[test]
fn password_may_hold_colons() {
    // "user:pa:ss"
    assert!(header_matches("Basic dXNlcjpwYTpzcw==", "user", "pa:ss"));
    assert!(credentials_match("user:pa:ss", "user", "pa:ss"));
    assert!(!credentials_match("user:pa:ss", "user:pa", "ss"));
}

#[test]
fn non_ascii_credentials_are_decoded() {
    // "ユーザー:パス" in UTF-8
    let encoded = base64::engine::general_purpose::STANDARD.encode("ユーザー:パス".as_bytes());
    let header = format!("Basic {encoded}");
    assert!(header_matches(&header, "ユーザー", "パス"));
}

#[test]
fn decoded_bytes_must_be_utf8_credentials() {
    assert!(decoded_credentials_match(b"user:pass".to_vec(), "user", "pass"));
    assert!(!decoded_credentials_match(vec![0xff, b':', b'a'], "\u{fffd}", "a"));
    assert!(!decoded_credentials_match(b"user".to_vec(), "user", ""));
}
