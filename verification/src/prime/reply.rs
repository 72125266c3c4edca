//! The response that the server gives to a parsed request.
use crate::middlewares::string::StringResponseBodyPayload;
use crate::prime::request::{Request, RequestParseError};
use crate::prime::response::{headers_with_body_type, Response};
use crate::prime::status_code::StatusCode;
use vstd::prelude::*;

verus! {

/// The status answered to a parse outcome.
pub open spec fn reply_status(request: Result<Request, RequestParseError>) -> StatusCode {
    match request {
        Ok(_) => StatusCode::OK,
        Err(RequestParseError::LengthRequired) => StatusCode::LengthRequired,
        Err(RequestParseError::UnsupportedContentType) => StatusCode::NotImplemented,
        Err(RequestParseError::UnsupportedTransferEncoding(_)) => StatusCode::NotImplemented,
        Err(_) => StatusCode::BadRequest,
    }
}

/// The explanation answered to a parse outcome, where there is one.
pub open spec fn reply_text(request: Result<Request, RequestParseError>) -> Option<Seq<char>> {
    match request {
        Err(RequestParseError::LengthRequired) => Some(
            "Request must have a Content-Length header."@,
        ),
        Err(RequestParseError::UnsupportedContentType) => Some(
            "Only `Content-Type: text/plain` is supported for now."@,
        ),
        Err(RequestParseError::UnsupportedTransferEncoding(_)) => Some(
            "Header `Transfer-Encoding` is not yet supported."@,
        ),
        _ => None,
    }
}

/// The response to a parse outcome: `200` for a request; `411` and `501`
/// with a plain-text explanation where `Content-Length` is missing, or the
/// content type or transfer encoding is unsupported; `400` otherwise.
pub fn create_response(request: &Result<Request, RequestParseError>) -> (r: Response<
    StringResponseBodyPayload,
>)
    ensures
        r.version@ == "HTTP/1.1"@,
        r.status == reply_status(*request),
        match reply_text(*request) {
            Some(t) => r.body matches Some(b) && b.0@ == t && r.headers@ == headers_with_body_type(
                Seq::empty(),
                "text/plain"@,
            ),
            None => r.body is None && r.headers@ == Seq::<(Seq<char>, Seq<char>)>::empty(),
        },
{
    let mut response: Response<StringResponseBodyPayload> = Response::default();
    match request {
        Ok(_) => {},
        Err(e) => {
            match e {
                RequestParseError::LengthRequired => {
                    response.status = StatusCode::LengthRequired;
                    response.set_body(
                        Some(
                            Box::new(
                                StringResponseBodyPayload::new(
                                    "Request must have a Content-Length header.",
                                ),
                            ),
                        ),
                    );
                },
                RequestParseError::UnsupportedContentType => {
                    response.status = StatusCode::NotImplemented;
                    response.set_body(
                        Some(
                            Box::new(
                                StringResponseBodyPayload::new(
                                    "Only `Content-Type: text/plain` is supported for now.",
                                ),
                            ),
                        ),
                    );
                },
                RequestParseError::UnsupportedTransferEncoding(_) => {
                    response.status = StatusCode::NotImplemented;
                    response.set_body(
                        Some(
                            Box::new(
                                StringResponseBodyPayload::new(
                                    "Header `Transfer-Encoding` is not yet supported.",
                                ),
                            ),
                        ),
                    );
                },
                _ => {
                    response.status = StatusCode::BadRequest;
                },
            }
        },
    }
    response
}

/// No parse error is answered `200 OK`: a missing `Content-Length` is
/// answered `411`, an unsupported content type or transfer encoding `501`,
/// and every other error `400`.
pub proof fn lemma_errors_are_not_ok(e: RequestParseError)
    ensures
        reply_status(Err(e)) != StatusCode::OK,
        (e matches RequestParseError::LengthRequired) ==> reply_status(Err(e))
            == StatusCode::LengthRequired,
        (e matches RequestParseError::UnsupportedContentType) || (e matches RequestParseError::UnsupportedTransferEncoding(_))
            ==> reply_status(Err(e)) == StatusCode::NotImplemented,
        !(e matches RequestParseError::LengthRequired) && !(e matches RequestParseError::UnsupportedContentType)
            && !(e matches RequestParseError::UnsupportedTransferEncoding(_)) ==> reply_status(
            Err(e),
        ) == StatusCode::BadRequest,
{
}

} // verus!
