//! Decisions of the local admin HTTP API: query paging, which paths the auth
//! middleware lets through, and the status codes of the AD endpoints.

use vstd::prelude::*;

use crate::ad::client::LdapTestResult;
use crate::ad::sync::SyncReport;
use crate::text::{has_prefix, starts_with, str_equals};

verus! {

/// Human-readable documentation of the middleware chain.
pub struct MiddlewareChainDoc;

impl MiddlewareChainDoc {
    pub const CHAIN: &'static str = "
Collector HTTP router (`127.0.0.1:8080`, HTTP — localhost only):
  1. TraceLayer           — request/response logging (tower-http)
  2. CompressionLayer      — gzip responses
  3. ConcurrencyLimitLayer — max 256 concurrent requests
  4. rate_limit_login      — bucket for POST /api/v1/auth/login
  5. auth_middleware       — JWT validation for protected routes
  6. (future) session auth for protected HTML pages

Phase 2: separate HTTPS listener on LAN for mobile admin — not implemented yet.
";
}

/// Query of `GET /api/v1/catalog/users`.
#[derive(Debug)]
pub struct CatalogUsersQuery {
    pub q: Option<String>,
    pub limit: u32,
    pub offset: u32,
}

/// Page size when the query names none.
pub fn default_limit() -> (r: u32)
    ensures
        r == 50,
{
    50
}

/// The largest page the catalog browser serves.
pub open spec fn max_page_limit() -> u32 {
    500
}

impl CatalogUsersQuery {
    /// The page size used: the requested limit, capped at 500.
    pub fn page_limit(&self) -> (r: u32)
        ensures
            r == if self.limit < max_page_limit() {
                self.limit
            } else {
                max_page_limit()
            },
    {
        if self.limit < 500 {
            self.limit
        } else {
            500
        }
    }
}

/// Paths the auth middleware always lets through: the login endpoints and the
/// health check.
pub open spec fn spec_auth_exempt(path: Seq<char>) -> bool {
    has_prefix(path, "/api/v1/auth/"@) || path == "/healthz"@
}

/// Whether the auth middleware lets `path` through without a token check.
pub fn is_auth_exempt(path: &str) -> (r: bool)
    ensures
        r == spec_auth_exempt(path@),
{
    starts_with(path, "/api/v1/auth/") || str_equals(path, "/healthz")
}

/// Whether `path` is a protected API route (one the JWT check will guard).
pub fn is_protected_api(path: &str) -> (r: bool)
    ensures
        r == (!spec_auth_exempt(path@) && has_prefix(path@, "/api/v1/"@)),
{
    !is_auth_exempt(path) && starts_with(path, "/api/v1/")
}

/// Whether `path` is the login endpoint that the login rate limit applies to.
pub fn is_login_path(path: &str) -> (r: bool)
    ensures
        r == (path@ == "/api/v1/auth/login"@),
{
    str_equals(path, "/api/v1/auth/login")
}

/// Status of `POST /api/v1/test/ad`: 400 when AD is disabled; otherwise 500
/// when the test could not run (`None`), else 200 when the directory answered
/// and 502 when it did not.
pub fn test_ad_status(enabled: bool, result: Option<&LdapTestResult>) -> (r: u16)
    ensures
        r == if !enabled {
            400u16
        } else {
            match result {
                None => 500u16,
                Some(t) => if t.ok {
                    200u16
                } else {
                    502u16
                },
            }
        },
{
    if !enabled {
        return 400;
    }
    match result {
        None => 500,
        Some(t) => if t.ok {
            200
        } else {
            502
        },
    }
}

/// Status of `POST /api/v1/sync/ad`: 500 when the run failed (`None`), else
/// 200 on success and 400 when the sync is disabled.
pub fn sync_ad_status(report: Option<&SyncReport>) -> (r: u16)
    ensures
        r == match report {
            None => 500u16,
            Some(rep) => if rep.ok {
                200u16
            } else {
                400u16
            },
        },
{
    match report {
        None => 500,
        Some(rep) => if rep.ok {
            200
        } else {
            400
        },
    }
}

} // verus!
