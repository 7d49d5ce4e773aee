//! Tests of the Basic-Auth credential codec.

use quiz_auth::auth::{encode_basic_auth, BasicAuth, BasicAuthError};

#[test]
fn encode_produces_expected_header() {
    assert_eq!(encode_basic_auth("user", "pass"), "Basic dXNlcjpwYXNz");
}

#[test]
fn round_trip_simple_pair() {
    let header = encode_basic_auth("alice", "pw1");
    let decoded = BasicAuth::decode_header(Some(header.as_str())).unwrap();
    assert_eq!(decoded.0, Some(("alice".to_string(), "pw1".to_string())));
}

#[test]
fn round_trip_empty_password() {
    let header = encode_basic_auth("user", "");
    let decoded = BasicAuth::decode_header(Some(header.as_str())).unwrap();
    assert_eq!(decoded.0, Some(("user".to_string(), "".to_string())));
}

#[test]
fn round_trip_non_ascii_pair() {
    let header = encode_basic_auth("ülrich", "päss wörd");
    let decoded = BasicAuth::decode_header(Some(header.as_str())).unwrap();
    assert_eq!(decoded.0, Some(("ülrich".to_string(), "päss wörd".to_string())));
}

#[test]
fn round_trip_many_pairs() {
    let pairs = [
        ("a", "b"),
        ("alice", "correct horse battery staple"),
        ("", "password-only"),
        ("dots.and-dashes_ok", "s p a c e s"),
        ("digits123", "!@#$%^&*()"),
        ("user", "pa:ss:es"),
    ];
    for (username, password) in pairs {
        let header = encode_basic_auth(username, password);
        let decoded = BasicAuth::decode_header(Some(header.as_str())).unwrap();
        assert_eq!(decoded.0, Some((username.to_string(), password.to_string())));
    }
}

#[test]
fn absent_header_yields_no_credentials() {
    let decoded = BasicAuth::decode_header(None).unwrap();
    assert!(decoded.0.is_none());
}

#[test]
fn foreign_scheme_yields_no_credentials() {
    let decoded = BasicAuth::decode_header(Some("Bearer abcdef")).unwrap();
    assert!(decoded.0.is_none());
    let lowercase = BasicAuth::decode_header(Some("basic dXNlcjpwYXNz")).unwrap();
    assert!(lowercase.0.is_none());
    let short = BasicAuth::decode_header(Some("Bas")).unwrap();
    assert!(short.0.is_none());
}

#[test]
fn token_decodes_pair() {
    let pair = BasicAuth::get_info_from_token("dXNlcjpwYXNz").unwrap();
    assert_eq!(pair, ("user".to_string(), "pass".to_string()));
}

#[test]
fn malformed_base64_is_an_error() {
    assert_eq!(
        BasicAuth::get_info_from_token("!!!"),
        Err(BasicAuthError::Base64DecodeError)
    );
    assert_eq!(
        BasicAuth::decode_header(Some("Basic !!!")).unwrap_err(),
        BasicAuthError::Base64DecodeError
    );
}

#[test]
fn missing_colon_is_invalid() {
    // base64 of "nocolon"
    assert_eq!(
        BasicAuth::get_info_from_token("bm9jb2xvbg=="),
        Err(BasicAuthError::InvalidTokenError)
    );
}

#[test]
fn password_may_contain_colons() {
    // base64 of "a:b:c": the split takes the first colon
    assert_eq!(
        BasicAuth::get_info_from_token("YTpiOmM="),
        Ok(("a".to_string(), "b:c".to_string()))
    );
}

#[test]
fn round_trip_password_with_colons() {
    let header = encode_basic_auth("alice", "pw:with:colons");
    let decoded = BasicAuth::decode_header(Some(header.as_str())).unwrap();
    assert_eq!(
        decoded.0,
        Some(("alice".to_string(), "pw:with:colons".to_string()))
    );
}

#[test]
fn invalid_utf8_is_an_error() {
    // base64 of the lone byte 0xff
    assert_eq!(
        BasicAuth::get_info_from_token("/w=="),
        Err(BasicAuthError::Utf8Error)
    );
}

#[test]
fn error_messages_are_stable() {
    assert_eq!(
        BasicAuthError::InvalidTokenError.message(),
        "Invalid Basic Auth token"
    );
    assert_eq!(
        BasicAuthError::Base64DecodeError.message(),
        "Unable to decode Basic Auth token"
    );
    assert_eq!(
        BasicAuthError::Utf8Error.message(),
        "Basic Auth token is not valid UTF-8"
    );
}
