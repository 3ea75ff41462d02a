//! The two default headers attached to every request, and the legality
//! check a credential must pass before it may stand in one.
//!
//! An HTTP header value may hold horizontal tab and any byte from 32 up,
//! except delete (127). On a Rust string this byte rule comes down to a rule
//! on characters: every character outside the ASCII range encodes to bytes
//! that the rule accepts, so a string is a legal header value exactly when
//! each of its characters is tab, or has a scalar value of at least 32 other
//! than 127.

use crate::credentials::Credentials;
use crate::error::ApiError;
use vstd::prelude::*;

verus! {

/// Whether one character may appear in an HTTP header value.
pub open spec fn legal_header_char(c: char) -> bool {
    c == '\t' || (32 <= c as u32 && c as u32 != 127)
}

/// Whether a whole string is a legal HTTP header value.
pub open spec fn legal_header_value(s: Seq<char>) -> bool {
    forall|i: int| 0 <= i < s.len() ==> legal_header_char(s[i])
}

/// The authorization header value formed from an API key.
pub open spec fn bearer_of(key: Seq<char>) -> Seq<char> {
    "Bearer "@ + key
}

/// Decides whether a string may stand in an HTTP header value.
pub fn check_header_value(s: &str) -> (r: bool)
    ensures
        r == legal_header_value(s@),
{
    let n = s.unicode_len();
    let mut i: usize = 0;
    while i < n
        invariant
            n == s@.len(),
            i <= n,
            forall|j: int| 0 <= j < i ==> legal_header_char(s@[j]),
        decreases n - i,
    {
        let c = s.get_char(i);
        if !(c == '\t' || (c as u32 >= 32 && c as u32 != 127)) {
            assert(!legal_header_char(s@[i as int]));
            return false;
        }
        i += 1;
    }
    true
}

/// The two default header values a client is built with.
#[derive(Debug, Clone)]
pub struct ClientConfig {
    /// The value of the `authorization` header: `Bearer` plus the key.
    pub auth_header: String,
    /// The value of the organization header: the identifier verbatim.
    pub org_header: String,
}

/// Builds the default header values from a set of credentials.
///
/// Succeeds exactly when both credentials are legal header values, and then
/// yields the bearer line and the organization identifier verbatim; an
/// illegal character in either credential is a header-encoding error, and
/// nothing may be sent.
pub fn build_client_config(creds: &Credentials) -> (r: Result<ClientConfig, ApiError>)
    ensures
        match r {
            Ok(cfg) => {
                &&& legal_header_value(creds.api_key@)
                &&& legal_header_value(creds.api_org@)
                &&& cfg.auth_header@ == bearer_of(creds.api_key@)
                &&& cfg.org_header@ == creds.api_org@
            },
            Err(e) => {
                &&& e == ApiError::HeaderEncoding
                &&& !(legal_header_value(creds.api_key@) && legal_header_value(creds.api_org@))
            },
        },
{
    if !check_header_value(creds.api_key.as_str()) {
        return Err(ApiError::HeaderEncoding);
    }
    if !check_header_value(creds.api_org.as_str()) {
        return Err(ApiError::HeaderEncoding);
    }
    let mut auth = String::from_str("Bearer ");
    auth.append(creds.api_key.as_str());
    Ok(ClientConfig { auth_header: auth, org_header: creds.api_org.clone() })
}

/// The name of the authorization header.
pub fn authorization_header_name() -> (r: &'static str)
    ensures
        r@ == "authorization"@,
{
    "authorization"
}

/// The name of the organization header.
pub fn organization_header_name() -> (r: &'static str)
    ensures
        r@ == "OpenAI-Organization"@,
{
    "OpenAI-Organization"
}

} // verus!
