//! Status families of an HTTP response.

use vstd::prelude::*;

verus! {

/// The four status families that the server distinguishes.
#[derive(Debug, Clone, Copy, PartialEq, Eq, Structural)]
pub enum Response {
    /// All is well (2xx).
    Success,
    /// The resource has moved (3xx).
    Redirect,
    /// The client made a mistake (4xx).
    ClientErr,
    /// The server failed (5xx, and every code outside 200..=499).
    ServerErr,
}

/// The family that a numeric status code belongs to.
pub open spec fn status_family(code: u32) -> Response {
    if 200 <= code <= 299 {
        Response::Success
    } else if 300 <= code <= 399 {
        Response::Redirect
    } else if 400 <= code <= 499 {
        Response::ClientErr
    } else {
        Response::ServerErr
    }
}

impl From<u32> for Response {
    fn from(v: u32) -> (r: Response) {
        if 200 <= v && v <= 299 {
            Response::Success
        } else if 300 <= v && v <= 399 {
            Response::Redirect
        } else if 400 <= v && v <= 499 {
            Response::ClientErr
        } else {
            Response::ServerErr
        }
    }
}

impl vstd::std_specs::convert::FromSpecImpl<u32> for Response {
    open spec fn obeys_from_spec() -> bool {
        true
    }

    open spec fn from_spec(v: u32) -> Response {
        status_family(v)
    }
}

} // verus!
