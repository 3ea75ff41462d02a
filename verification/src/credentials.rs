//! Loading the two secrets the API needs: a key and an organization
//! identifier.
//!
//! The values come from the process environment, which the caller reads; this
//! module only decides whether a complete set of credentials was found, so
//! that a missing variable surfaces as a typed error before any request is
//! attempted.

use crate::error::ApiError;
use vstd::prelude::*;

verus! {

/// The two secrets every request carries.
#[derive(Debug, Clone)]
pub struct Credentials {
    pub api_key: String,
    pub api_org: String,
}

/// Decides whether a complete set of credentials was found.
///
/// Succeeds exactly when both lookups produced a value, and then carries the
/// two strings through unchanged; a missing value is a configuration error.
pub fn load_credentials(api_key: Option<String>, api_org: Option<String>) -> (r: Result<
    Credentials,
    ApiError,
>)
    ensures
        match r {
            Ok(c) => {
                &&& api_key matches Some(k) && c.api_key == k
                &&& api_org matches Some(o) && c.api_org == o
            },
            Err(e) => e == ApiError::Configuration && (api_key is None || api_org is None),
        },
{
    match (api_key, api_org) {
        (Some(k), Some(o)) => Ok(Credentials { api_key: k, api_org: o }),
        _ => Err(ApiError::Configuration),
    }
}

} // verus!
