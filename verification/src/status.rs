//! The answers that the service gives over HTTP.

use vstd::prelude::*;

verus! {

/// The status of an HTTP response of the service.
#[derive(Debug, Clone, Copy, PartialEq, Eq, Structural)]
pub enum StatusCode {
    /// 200: the request was carried out.
    Success,
    /// 401: the credentials were rejected, or the session is invalid.
    Unauthorized,
    /// 404: there is no such user.
    NotFound,
    /// 500: the store failed.
    InternalServerError,
}

impl StatusCode {
    /// The number of the status.
    pub open spec fn number(self) -> int {
        match self {
            StatusCode::Success => 200,
            StatusCode::Unauthorized => 401,
            StatusCode::NotFound => 404,
            StatusCode::InternalServerError => 500,
        }
    }

    /// The number of the status, as it goes over the wire.
    pub fn as_u16(&self) -> (code: u16)
        ensures
            code == self.number(),
    {
        match self {
            StatusCode::Success => 200,
            StatusCode::Unauthorized => 401,
            StatusCode::NotFound => 404,
            StatusCode::InternalServerError => 500,
        }
    }
}

} // verus!
