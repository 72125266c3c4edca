//! HTTP versions.
use crate::text::{chars_eq, chars_of};
use std::str::FromStr;
use vstd::prelude::*;

verus! {

/// An invalid version was received.
#[derive(Debug)]
pub struct InvalidVersionError;

/// The valid HTTP versions.
#[derive(Debug, Clone, Copy, PartialEq, Eq, Structural)]
pub enum Version {
    HTTP1_1,
}

impl Version {
    /// The version written `s`: only `HTTP/1.1` is one.
    pub fn from_str(s: &str) -> (r: Result<Version, InvalidVersionError>)
        ensures
            r is Ok <==> s@ == "HTTP/1.1"@,
            r matches Ok(v) ==> v == Version::HTTP1_1,
    {
        if chars_eq(&chars_of(s), &chars_of("HTTP/1.1")) {
            Ok(Version::HTTP1_1)
        } else {
            Err(InvalidVersionError)
        }
    }
}

impl FromStr for Version {
    type Err = InvalidVersionError;

    fn from_str(s: &str) -> (r: Result<Version, InvalidVersionError>)
        ensures
            r is Ok <==> s@ == "HTTP/1.1"@,
            r matches Ok(v) ==> v == Version::HTTP1_1,
    {
        Version::from_str(s)
    }
}

} // verus!
