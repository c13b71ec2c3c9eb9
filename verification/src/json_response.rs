//! The status line put before a JSON body.

use vstd::prelude::*;
use vstd::string::*;
use crate::response::Response;

verus! {

/// The status line, with the empty line after it, that stands for a family
/// of status codes.
pub open spec fn status_line(code: Response) -> Seq<char> {
    match code {
        Response::Success => "HTTP/1.1 200 OK\r\n\r\n"@,
        Response::Redirect => "HTTP/1.1 301 MOVED PERMANENTLY\r\n\r\n"@,
        Response::ClientErr => "HTTP/1.1 404 NOT FOUND\r\n\r\n"@,
        Response::ServerErr => "HTTP/1.1 500 INTERNAL SERVER ERROR\r\n\r\n"@,
    }
}

/// Builds responses that carry JSON.
pub struct JSONResponse;

impl JSONResponse {
    /// The response for a status family and a serialized JSON value: the
    /// status line of the family, an empty line, and the value as it is.
    pub fn construct_response(response_code: Response, data: String) -> (r: String)
        ensures
            r@ == status_line(response_code) + data@,
    {
        let head = match response_code {
            Response::Success => "HTTP/1.1 200 OK\r\n\r\n",
            Response::Redirect => "HTTP/1.1 301 MOVED PERMANENTLY\r\n\r\n",
            Response::ClientErr => "HTTP/1.1 404 NOT FOUND\r\n\r\n",
            Response::ServerErr => "HTTP/1.1 500 INTERNAL SERVER ERROR\r\n\r\n",
        };
        String::from_str(head).concat(data.as_str())
    }
}

} // verus!
