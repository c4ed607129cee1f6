//! Shared-secret token authorization: the decision that gates `/upload` and
//! `/webhook` requests.
//!
//! The HTTP middleware shell around this decision lives outside the library;
//! it extracts the `token` header and the configured secret and asks
//! [`TokenAuth::allows`] whether the request may proceed.

use vstd::prelude::*;

use crate::strutil::str_eq;

verus! {

/// Whether a request carrying `provided` as its token header passes a gate
/// configured with `expected`.
pub open spec fn token_allowed(provided: Option<Seq<char>>, expected: Seq<char>) -> bool {
    provided == Some(expected)
}

/// The token authorization gate.
pub struct TokenAuth;

/// The authorization layer around one wrapped service.
pub struct TokenAuthMiddleware<S> {
    pub service: S,
}

impl TokenAuth {
    /// Decides a request: it passes if and only if it carries a token
    /// header equal to the configured secret. A missing header never
    /// passes.
    pub fn allows(provided: Option<&str>, expected: &str) -> (r: bool)
        ensures
            r == token_allowed(
                match provided {
                    Some(t) => Some(t@),
                    None => None,
                },
                expected@,
            ),
    {
        match provided {
            Some(t) => str_eq(t, expected),
            None => false,
        }
    }
}

impl<S> TokenAuthMiddleware<S> {
    /// Decides a request before it reaches the inner service.
    pub fn allows(&self, provided: Option<&str>, expected: &str) -> (r: bool)
        ensures
            r == token_allowed(
                match provided {
                    Some(t) => Some(t@),
                    None => None,
                },
                expected@,
            ),
    {
        TokenAuth::allows(provided, expected)
    }
}


/// How the `/upload` and `/webhook` routes are mounted.
#[derive(Clone, Copy, PartialEq, Eq, Structural, Debug)]
pub enum RouteMode {
    /// Mounted behind the JWT authorization gate.
    Protected,
    /// Mounted with no protection: dev mode only.
    Open,
    /// Not mounted at all.
    Absent,
}

/// The mounting decision for the protected routes: behind JWT
/// authorization whenever a JWT configuration exists, bare only in dev
/// mode, and otherwise not served at all.
pub open spec fn route_mode_spec(jwt_configured: bool, dev: bool) -> RouteMode {
    if jwt_configured {
        RouteMode::Protected
    } else if dev {
        RouteMode::Open
    } else {
        RouteMode::Absent
    }
}

/// Decides how to mount the `/upload` and `/webhook` routes.
pub fn route_mode(jwt_configured: bool, dev: bool) -> (r: RouteMode)
    ensures
        r == route_mode_spec(jwt_configured, dev),
{
    if jwt_configured {
        RouteMode::Protected
    } else if dev {
        RouteMode::Open
    } else {
        RouteMode::Absent
    }
}

} // verus!
