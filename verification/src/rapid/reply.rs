//! The reply that the server writes for a parsed request.
use crate::rapid::request::{Request, RequestError};
use vstd::prelude::*;

verus! {

/// The reply written for a parse outcome.
pub open spec fn reply_text(request: Result<Request, RequestError>) -> Seq<char> {
    match request {
        Ok(_) => "HTTP/1.1 204 No Content\r\n\r\n"@,
        Err(RequestError::UnsupportedHttpVersion) => "HTTP/1.1 505 HTTP Version Not Supported\r\n\r\n"@,
        Err(RequestError::InvalidMethod) => "HTTP/1.1 405 Method Not Allowed\r\n\r\n"@,
        Err(_) => "HTTP/1.1 400 Bad Request\r\n\r\n"@,
    }
}

/// The reply to a parse outcome: `204` for a request, `505` for an
/// unsupported version or malformed start line, `405` for an unknown
/// method, `400` otherwise.
pub fn reply(request: &Result<Request, RequestError>) -> (r: String)
    ensures
        r@ == reply_text(*request),
{
    let text = match request {
        Ok(_) => "HTTP/1.1 204 No Content\r\n\r\n",
        Err(RequestError::UnsupportedHttpVersion) => "HTTP/1.1 505 HTTP Version Not Supported\r\n\r\n",
        Err(RequestError::InvalidMethod) => "HTTP/1.1 405 Method Not Allowed\r\n\r\n",
        Err(_) => "HTTP/1.1 400 Bad Request\r\n\r\n",
    };
    text.to_owned()
}

} // verus!
