//! HTTP Basic-Auth credential codec.
//!
//! A header value of the shape `Basic <base64(username:password)>` is decoded
//! into its credential pair. A missing header or a foreign scheme means "no
//! credentials supplied"; a malformed token after the recognized scheme prefix
//! is an error.

use vstd::prelude::*;
use vstd::utf8::{
    decode_utf8, decode_utf8_encode_utf8, encode_utf8, encode_utf8_decode_utf8,
    encode_utf8_valid_utf8, valid_utf8,
};

use crate::text::push_char;

verus! {

broadcast use {encode_utf8_valid_utf8, encode_utf8_decode_utf8, decode_utf8_encode_utf8};

/// Failure modes of Basic-Auth token decoding, mirrored at the request
/// boundary as client errors.
#[derive(Clone, Copy, Debug, PartialEq, Eq, Structural)]
pub enum BasicAuthError {
    /// The token after the scheme prefix is not canonical base64.
    Base64DecodeError,
    /// The decoded token holds no `:` separating username from password.
    InvalidTokenError,
    /// The decoded token bytes are not valid UTF-8.
    Utf8Error,
}

/// The credentials carried by a request: `None` when the header was absent or
/// used a foreign scheme.
#[derive(Clone, Debug)]
pub struct BasicAuth(pub Option<(String, String)>);

/// The standard padded base64 rendering of a byte sequence.
pub uninterp spec fn b64_of(bytes: Seq<u8>) -> Seq<char>;

#[verifier::external_type_specification]
#[verifier::external_body]
pub struct ExDecodeError(base64::DecodeError);

#[verifier::external_type_specification]
#[verifier::external_body]
pub struct ExUtf8Error(core::str::Utf8Error);

/// Relies on base64's `BASE64_STANDARD` engine: `encode` renders bytes in the
/// standard alphabet with padding, a function of the input bytes alone.
#[verifier::external_body]
fn b64_encode(bytes: &[u8]) -> (r: String)
    ensures
        r@ == b64_of(bytes@),
{
    base64::Engine::encode(&base64::prelude::BASE64_STANDARD, bytes)
}

/// Relies on base64's `BASE64_STANDARD` engine: `decode` accepts exactly the
/// canonical padded encodings (its config rejects stray trailing bits and
/// non-canonical padding) and inverts `encode` on them.
#[verifier::external_body]
fn b64_decode(s: &str) -> (r: Result<Vec<u8>, base64::DecodeError>)
    ensures
        r matches Ok(v) ==> s@ == b64_of(v@),
        r matches Ok(v) ==> forall|b: Seq<u8>| s@ == #[trigger] b64_of(b) ==> v@ == b,
        r is Err ==> forall|b: Seq<u8>| s@ != #[trigger] b64_of(b),
{
    base64::Engine::decode(&base64::prelude::BASE64_STANDARD, s)
}

/// Relies on `core::str::from_utf8`: it succeeds exactly on valid UTF-8 and
/// decodes it, matching vstd's model of UTF-8.
#[verifier::external_body]
fn bytes_to_str(v: &[u8]) -> (r: Result<&str, core::str::Utf8Error>)
    ensures
        r matches Ok(s) ==> valid_utf8(v@) && s@ == decode_utf8(v@),
        r is Err ==> !valid_utf8(v@),
{
    core::str::from_utf8(v)
}

/// Valid credentials: the username contains no `:`. Decoding splits on the
/// first colon, so the password may contain colons freely.
pub open spec fn credentials_ok(u: Seq<char>) -> bool {
    !u.contains(':')
}

/// The Basic-Auth token that carries the pair `u`, `p`.
pub open spec fn basic_token_of(u: Seq<char>, p: Seq<char>) -> Seq<char> {
    b64_of(encode_utf8(u + seq![':'] + p))
}

/// The header value starts with the `Basic ` scheme prefix.
pub open spec fn has_basic_prefix(h: Seq<char>) -> bool {
    h.len() >= 6 && h.subrange(0, 6) == "Basic "@
}

/// Whether the header value starts with the `Basic ` scheme prefix.
fn check_basic_prefix(h: &str) -> (r: bool)
    ensures
        r == has_basic_prefix(h@),
{
    proof {
        reveal_strlit("Basic ");
    }
    let n = h.unicode_len();
    if n < 6 {
        return false;
    }
    let r = h.get_char(0) == 'B' && h.get_char(1) == 'a' && h.get_char(2) == 's' && h.get_char(3)
        == 'i' && h.get_char(4) == 'c' && h.get_char(5) == ' ';
    proof {
        if r {
            assert(h@.subrange(0, 6) =~= "Basic "@);
        }
        if !r && has_basic_prefix(h@) {
            assert(h@[0] == h@.subrange(0, 6)[0]);
            assert(h@[1] == h@.subrange(0, 6)[1]);
            assert(h@[2] == h@.subrange(0, 6)[2]);
            assert(h@[3] == h@.subrange(0, 6)[3]);
            assert(h@[4] == h@.subrange(0, 6)[4]);
            assert(h@[5] == h@.subrange(0, 6)[5]);
            assert(false);
        }
    }
    r
}

/// Builds the `Authorization` header value that carries the given
/// credentials.
pub fn encode_basic_auth(username: &str, password: &str) -> (r: String)
    ensures
        r@ == "Basic "@ + basic_token_of(username@, password@),
{
    let mut joined = String::from_str(username);
    push_char(&mut joined, ':');
    joined.append(password);
    proof {
        assert(joined@ =~= username@ + seq![':'] + password@);
    }
    let token = b64_encode(joined.as_str().as_bytes());
    let mut header = String::from_str("Basic ");
    header.append(token.as_str());
    header
}

impl BasicAuth {
    /// Decodes a Basic-Auth token into its `username`/`password` parts: the
    /// token must be canonical base64 of valid UTF-8 holding a `:`; the
    /// username is the text before the first colon, the password everything
    /// after it.
    pub fn get_info_from_token(token: &str) -> (r: Result<(String, String), BasicAuthError>)
        ensures
            r matches Ok(c) ==> credentials_ok(c.0@) && token@ == basic_token_of(c.0@, c.1@),
            forall|u: Seq<char>, p: Seq<char>|
                credentials_ok(u) && token@ == #[trigger] basic_token_of(u, p) ==> (
                r matches Ok(c) && c.0@ == u && c.1@ == p),
            r == Err::<(String, String), BasicAuthError>(BasicAuthError::Base64DecodeError) <==> !(
            exists|b: Seq<u8>| token@ == #[trigger] b64_of(b)),
            r == Err::<(String, String), BasicAuthError>(BasicAuthError::Utf8Error) <==> (exists|
                b: Seq<u8>,
            |
                token@ == #[trigger] b64_of(b) && !valid_utf8(b)),
            r == Err::<(String, String), BasicAuthError>(BasicAuthError::InvalidTokenError) <==> (
            exists|b: Seq<u8>|
                token@ == #[trigger] b64_of(b) && valid_utf8(b) && !decode_utf8(b).contains(
                    ':',
                )),
    {
        let bytes = match b64_decode(token) {
            Ok(v) => v,
            Err(_) => {
                proof {
                    assert forall|u: Seq<char>, p: Seq<char>|
                        !(credentials_ok(u) && token@ == #[trigger] basic_token_of(
                            u,
                            p,
                        )) by {
                        assert(token@ != b64_of(encode_utf8(u + seq![':'] + p)));
                    };
                }
                return Err(BasicAuthError::Base64DecodeError);
            },
        };
        let s = match bytes_to_str(bytes.as_slice()) {
            Ok(s) => s,
            Err(_) => {
                proof {
                    assert forall|u: Seq<char>, p: Seq<char>|
                        !(credentials_ok(u) && token@ == #[trigger] basic_token_of(
                            u,
                            p,
                        )) by {
                        if credentials_ok(u) && token@ == basic_token_of(u, p) {
                            let joined = u + seq![':'] + p;
                            assert(bytes@ == encode_utf8(joined));
                            assert(valid_utf8(encode_utf8(joined)));
                            assert(false);
                        }
                    };
                }
                return Err(BasicAuthError::Utf8Error);
            },
        };
        let n = s.unicode_len();
        let mut first_colon: usize = 0;
        let mut found = false;
        for i in 0..n
            invariant
                n == s@.len(),
                !found ==> forall|j: int| 0 <= j < i ==> s@[j] != ':',
                found ==> first_colon < i && s@[first_colon as int] == ':' && (forall|j: int|
                    0 <= j < first_colon ==> s@[j] != ':'),
        {
            if !found && s.get_char(i) == ':' {
                first_colon = i;
                found = true;
            }
        }
        if !found {
            proof {
                assert(!s@.contains(':')) by {
                    if s@.contains(':') {
                        let j = choose|j: int| 0 <= j < s@.len() && s@[j] == ':';
                        assert(s@[j] != ':');
                    }
                }
                assert forall|u: Seq<char>, p: Seq<char>|
                    !(credentials_ok(u) && token@ == #[trigger] basic_token_of(u, p)) by {
                    if credentials_ok(u) && token@ == basic_token_of(u, p) {
                        let joined = u + seq![':'] + p;
                        assert(bytes@ == encode_utf8(joined));
                        assert(decode_utf8(encode_utf8(joined)) == joined);
                        assert((u + seq![':']) + p =~= joined);
                        assert(s@[u.len() as int] == ':');
                        assert(false);
                    }
                };
            }
            return Err(BasicAuthError::InvalidTokenError);
        }
        let u = String::from_str(s.substring_char(0, first_colon));
        let p = String::from_str(s.substring_char(first_colon + 1, n));
        proof {
            let fc = first_colon as int;
            assert(s@ =~= s@.subrange(0, fc) + seq![s@[fc]] + s@.subrange(fc + 1, n as int));
            assert(!u@.contains(':')) by {
                if u@.contains(':') {
                    let j = choose|j: int| 0 <= j < u@.len() && u@[j] == ':';
                    assert(s@[j] == ':');
                }
            }
            assert((u@ + seq![':']) + p@ =~= s@);
            assert(encode_utf8(s@) == bytes@);
            assert(token@ == basic_token_of(u@, p@));
            assert(s@.contains(':')) by {
                assert(s@[fc] == ':');
            }
            assert forall|u2: Seq<char>, p2: Seq<char>|
                credentials_ok(u2) && token@ == #[trigger] basic_token_of(u2, p2) implies u@ == u2
                && p@ == p2 by {
                let joined2 = u2 + seq![':'] + p2;
                assert(bytes@ == encode_utf8(joined2));
                assert(decode_utf8(encode_utf8(joined2)) == joined2);
                assert(s@ == joined2);
                assert((u2 + seq![':']).len() == u2.len() + 1);
                if fc < u2.len() {
                    assert(s@[fc] == u2[fc]);
                    assert(u2.contains(':'));
                    assert(false);
                }
                if fc > u2.len() {
                    assert(s@[u2.len() as int] == ':');
                    assert(false);
                }
                assert(fc == u2.len());
                assert(u@ =~= u2);
                assert(p@ =~= p2);
            };
        }
        Ok((u, p))
    }
}

impl BasicAuth {
    /// Decodes an `Authorization` header value: an absent header or a foreign
    /// scheme yields no credentials, a recognized `Basic ` prefix followed by
    /// a malformed token is an error.
    pub fn decode_header(header: Option<&str>) -> (r: Result<BasicAuth, BasicAuthError>)
        ensures
            header is None ==> (r matches Ok(b) && b.0 is None),
            header matches Some(h) && !has_basic_prefix(h@) ==> (r matches Ok(b) && b.0 is None),
            header is Some && has_basic_prefix(header->Some_0@) ==> (r matches Ok(b) ==> (
            b.0 matches Some(c) && credentials_ok(c.0@) && header->Some_0@.skip(6)
                == basic_token_of(c.0@, c.1@))),
            header is Some && has_basic_prefix(header->Some_0@) ==> (forall|
                u: Seq<char>,
                p: Seq<char>,
            |
                credentials_ok(u) && header->Some_0@.skip(6) == #[trigger] basic_token_of(
                    u,
                    p,
                ) ==> (r matches Ok(b) && b.0 matches Some(c) && c.0@ == u && c.1@ == p)),
            header is Some && has_basic_prefix(header->Some_0@) ==> (r == Err::<
                BasicAuth,
                BasicAuthError,
            >(BasicAuthError::Base64DecodeError) <==> !(exists|b: Seq<u8>|
                header->Some_0@.skip(6) == #[trigger] b64_of(b))),
            header is Some && has_basic_prefix(header->Some_0@) ==> (r == Err::<
                BasicAuth,
                BasicAuthError,
            >(BasicAuthError::Utf8Error) <==> (exists|b: Seq<u8>|
                header->Some_0@.skip(6) == #[trigger] b64_of(b) && !valid_utf8(b))),
            header is Some && has_basic_prefix(header->Some_0@) ==> (r == Err::<
                BasicAuth,
                BasicAuthError,
            >(BasicAuthError::InvalidTokenError) <==> (exists|b: Seq<u8>|
                header->Some_0@.skip(6) == #[trigger] b64_of(b) && valid_utf8(b) && !decode_utf8(
                    b,
                ).contains(':'))),
    {
        let h = match header {
            Some(h) => h,
            None => {
                return Ok(BasicAuth(None));
            },
        };
        if !check_basic_prefix(h) {
            return Ok(BasicAuth(None));
        }
        let n = h.unicode_len();
        let token = h.substring_char(6, n);
        proof {
            assert(token@ =~= h@.skip(6));
        }
        match Self::get_info_from_token(token) {
            Ok(pair) => Ok(BasicAuth(Some(pair))),
            Err(e) => Err(e),
        }
    }
}

impl BasicAuthError {
    /// The human-readable description of the error, in place of `Display`.
    pub fn message(&self) -> (r: &'static str)
        ensures
            *self == BasicAuthError::Base64DecodeError ==> r@ == "Unable to decode Basic Auth token"@,
            *self == BasicAuthError::InvalidTokenError ==> r@ == "Invalid Basic Auth token"@,
            *self == BasicAuthError::Utf8Error ==> r@ == "Basic Auth token is not valid UTF-8"@,
    {
        match self {
            BasicAuthError::Base64DecodeError => "Unable to decode Basic Auth token",
            BasicAuthError::InvalidTokenError => "Invalid Basic Auth token",
            BasicAuthError::Utf8Error => "Basic Auth token is not valid UTF-8",
        }
    }
}

/// The round trip of `encode_basic_auth` followed by header decoding
/// reproduces the original pair whenever the username holds no colon: the
/// built header has the scheme prefix and carries exactly
/// `basic_token_of(u, p)` after it, and the first colon of the decoded
/// payload is the one the encoder wrote.
pub proof fn lemma_basic_auth_round_trip(u: Seq<char>, p: Seq<char>)
    requires
        credentials_ok(u),
    ensures
        has_basic_prefix("Basic "@ + basic_token_of(u, p)),
        ("Basic "@ + basic_token_of(u, p)).skip(6) == basic_token_of(u, p),
{
    reveal_strlit("Basic ");
    assert(("Basic "@ + basic_token_of(u, p)).subrange(0, 6) =~= "Basic "@);
    assert(("Basic "@ + basic_token_of(u, p)).skip(6) =~= basic_token_of(u, p));
}

} // verus!
