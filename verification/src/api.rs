//! How the REST API answers a refused request. The routes themselves are
//! served by the application.
use vstd::prelude::*;

verus! {

/// The endpoints that can refuse a request.
#[derive(Debug, Clone, Copy, PartialEq, Eq, Structural)]
pub enum Endpoint {
    /// `GET /api/zones/{id}`
    GetZone,
    /// `POST /api/zones/{id}/open`
    OpenZone,
    /// `POST /api/zones/{id}/close`
    CloseZone,
    /// `GET /api/switches/{id}`
    GetSwitch,
}

/// HTTP status of a refused request: reading an unknown zone or switch is
/// "404 Not Found", acting on an unknown zone is "400 Bad Request". The
/// body is the error text.
pub fn rejection_status(e: Endpoint) -> (status: u16)
    ensures
        status == (match e {
            Endpoint::GetZone | Endpoint::GetSwitch => 404u16,
            Endpoint::OpenZone | Endpoint::CloseZone => 400u16,
        }),
{
    match e {
        Endpoint::GetZone | Endpoint::GetSwitch => 404,
        Endpoint::OpenZone | Endpoint::CloseZone => 400,
    }
}

/// Body of `GET /api/health`.
pub fn health() -> (body: &'static str)
    ensures
        body@ == "ok"@,
{
    "ok"
}

} // verus!
