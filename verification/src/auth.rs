//! The Basic-Auth gate: every request is compared against the optional
//! configured credential token before anything else runs. The configured
//! token is the pre-encoded form (base64 of `username:password`), and the
//! comparison is of encoded tokens, never of decoded fields.

use vstd::prelude::*;
use crate::text::{eq_bytes_constant_time, spec_starts_with, starts_with_bytes};

verus! {

use vstd::string::StringSliceAdditionalSpecFns;

/// The header scheme token `Basic` followed by one space.
pub open spec fn basic_prefix() -> Seq<u8> {
    "Basic ".spec_bytes()
}

/// A request is allowed iff no credential is configured, or its
/// `Authorization` header is exactly `Basic ` followed by the configured
/// token.
pub open spec fn spec_auth_allowed(configured: Option<Seq<u8>>, header: Option<Seq<u8>>) -> bool {
    match configured {
        None => true,
        Some(token) => match header {
            None => false,
            Some(h) => spec_starts_with(h, basic_prefix()) && h.skip(basic_prefix().len() as int)
                == token,
        },
    }
}

/// Decides whether a request passes the auth gate. `configured` is the
/// pre-encoded credential token; `header` the request's `Authorization`
/// value, if it carried one. The token comparison examines every byte.
pub fn check_basic_auth(configured: Option<&str>, header: Option<&str>) -> (allow: bool)
    ensures
        allow == spec_auth_allowed(
            match configured {
                Some(c) => Some(c.spec_bytes()),
                None => None,
            },
            match header {
                Some(h) => Some(h.spec_bytes()),
                None => None,
            },
        ),
{
    let token = match configured {
        None => {
            return true;
        },
        Some(c) => c.as_bytes(),
    };
    let h = match header {
        None => {
            return false;
        },
        Some(h) => h.as_bytes(),
    };
    let prefix = "Basic ".as_bytes();
    if !starts_with_bytes(h, prefix) {
        return false;
    }
    let rest: &[u8] = &h[prefix.len()..h.len()];
    assert(rest@ =~= h@.skip(basic_prefix().len() as int));
    eq_bytes_constant_time(rest, token)
}

} // verus!
