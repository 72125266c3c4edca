//! Response status codes.
use vstd::prelude::*;

verus! {

/// The status codes that responses are given.
#[derive(Debug, Clone, Copy, PartialEq, Eq, Structural)]
pub enum StatusCode {
    OK,
    BadRequest,
    LengthRequired,
    NotImplemented,
}

impl StatusCode {
    /// The number of the status.
    pub open spec fn number(self) -> u16 {
        match self {
            StatusCode::OK => 200,
            StatusCode::BadRequest => 400,
            StatusCode::LengthRequired => 411,
            StatusCode::NotImplemented => 501,
        }
    }

    /// The reason phrase of the status.
    pub open spec fn phrase(self) -> Seq<char> {
        match self {
            StatusCode::OK => "OK"@,
            StatusCode::BadRequest => "Bad Request"@,
            StatusCode::LengthRequired => "Length Required"@,
            StatusCode::NotImplemented => "Not Implemented"@,
        }
    }

    /// The number of the status.
    pub fn code(&self) -> (r: u16)
        ensures
            r == self.number(),
    {
        match self {
            StatusCode::OK => 200,
            StatusCode::BadRequest => 400,
            StatusCode::LengthRequired => 411,
            StatusCode::NotImplemented => 501,
        }
    }

    /// The reason phrase of the status.
    pub fn reason(&self) -> (r: &'static str)
        ensures
            r@ == self.phrase(),
    {
        match self {
            StatusCode::OK => "OK",
            StatusCode::BadRequest => "Bad Request",
            StatusCode::LengthRequired => "Length Required",
            StatusCode::NotImplemented => "Not Implemented",
        }
    }
}

impl Default for StatusCode {
    fn default() -> (r: StatusCode)
        ensures
            r == StatusCode::OK,
    {
        StatusCode::OK
    }
}

} // verus!
