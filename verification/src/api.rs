//! Response shapes of the HTTP API and its small decisions.

use vstd::prelude::*;
use vstd::string::*;

verus! {

/// Standard error envelope.
#[derive(Clone, Debug)]
pub struct ErrorResponse {
    pub error: ErrorDetail,
}

/// Code and message of an error.
#[derive(Clone, Debug)]
pub struct ErrorDetail {
    pub code: String,
    pub message: String,
}

/// Health check response.
#[derive(Clone, Debug)]
pub struct HealthResponse {
    pub status: String,
    pub version: String,
    pub uptime_seconds: u64,
}

/// Pagination and filter parameters of a listing.
#[derive(Clone, Debug)]
pub struct PaginationParams {
    pub limit: Option<usize>,
    pub offset: Option<usize>,
    pub deployment_id: Option<String>,
    pub verdict: Option<String>,
    pub since: Option<String>,
}

impl PaginationParams {
    /// The number of records to list: the given limit, 20 by default.
    pub fn page_limit(&self) -> (n: usize)
        ensures
            n == match self.limit {
                Some(l) => l,
                None => 20,
            },
    {
        match self.limit {
            Some(l) => l,
            None => 20,
        }
    }
}

/// The error envelope for a code and message.
pub fn error_response(code: &str, message: &str) -> (r: ErrorResponse)
    ensures
        r.error.code@ == code@,
        r.error.message@ == message@,
{
    ErrorResponse {
        error: ErrorDetail { code: String::from_str(code), message: String::from_str(message) },
    }
}

/// The healthy status report.
pub fn health_response(version: &str, uptime_seconds: u64) -> (r: HealthResponse)
    ensures
        r.status@ == "ok"@,
        r.version@ == version@,
        r.uptime_seconds == uptime_seconds,
{
    HealthResponse {
        status: String::from_str("ok"),
        version: String::from_str(version),
        uptime_seconds,
    }
}

} // verus!
