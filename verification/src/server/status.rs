//! Response statuses.
use vstd::prelude::*;

verus! {

/// A response status.
#[derive(Debug, Clone, Copy, PartialEq, Eq, Structural)]
pub enum Status {
    OK,
}

impl Status {
    /// The number of the status.
    pub open spec fn number(self) -> u16 {
        match self {
            Status::OK => 200,
        }
    }

    /// The reason phrase of the status.
    pub open spec fn phrase(self) -> Seq<char> {
        match self {
            Status::OK => "OK"@,
        }
    }

    /// The reason phrase of the status.
    pub fn as_string(&self) -> (r: &str)
        ensures
            r@ == self.phrase(),
    {
        match self {
            Status::OK => "OK",
        }
    }

    /// The number of the status.
    pub fn code(&self) -> (r: u16)
        ensures
            r == self.number(),
    {
        match self {
            Status::OK => 200,
        }
    }
}

} // verus!
