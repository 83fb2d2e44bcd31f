//! Helpers for a browser build: the JWT payload as pretty JSON, the claims preview, and
//! the default API origin. Signatures are not verified.

use vstd::prelude::*;

use crate::json::{json_pretty, spec_json_pretty};
use crate::whoami::{
    decode_jwt_claims, describe_access_token, spec_decode_claims, spec_jwt_error_text,
    spec_render_claims,
    DEFAULT_API_ORIGIN,
};

verus! {

/// The JWT payload (middle segment) as pretty JSON, or the explanation of why it could
/// not be read.
pub fn decode_jwt_payload_pretty(access_token: &str) -> (r: Result<String, String>)
    ensures
        match spec_decode_claims(access_token@) {
            Ok(j) => r matches Ok(t) && t@ == spec_json_pretty(j),
            Err(e) => r matches Err(m) && m@ == spec_jwt_error_text(e.0, e.1),
        },
{
    match decode_jwt_claims(access_token) {
        Ok(j) => Ok(json_pretty(&j)),
        Err(e) => Err(e.message()),
    }
}

/// The claims preview of a JWT at the current time, or the message of why its payload
/// could not be read.
pub fn render_whoami_claims_from_jwt(access_token: &str) -> (r: Result<String, String>)
    ensures
        match spec_decode_claims(access_token@) {
            Ok(j) => r matches Ok(t) && exists|now: i64| t@ == #[trigger] spec_render_claims(j, now),
            Err(e) => r matches Err(m) && m@ == spec_jwt_error_text(e.0, e.1),
        },
{
    match describe_access_token(access_token) {
        Ok(t) => Ok(t),
        Err(e) => Err(e.message()),
    }
}

/// The default REST API origin.
pub fn default_api_origin() -> (r: String)
    ensures
        r@ == DEFAULT_API_ORIGIN@,
{
    DEFAULT_API_ORIGIN.to_owned()
}

} // verus!
