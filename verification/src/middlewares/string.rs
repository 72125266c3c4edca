//! A plain-text body payload.
use crate::prime::response::ResponseBodyPayload;
use vstd::prelude::*;
use vstd::utf8::encode_utf8;

verus! {

/// A plain-text payload.
#[derive(Debug, Clone)]
pub struct StringResponseBodyPayload(pub String);

impl StringResponseBodyPayload {
    /// A payload holding `payload`.
    pub fn new(payload: &str) -> (r: Self)
        ensures
            r.0@ == payload@,
    {
        StringResponseBodyPayload(payload.to_owned())
    }

    /// Whether the payload is empty.
    pub fn is_empty(&self) -> (r: bool)
        ensures
            r == (self.0@.len() == 0),
    {
        self.0.as_str().is_empty()
    }

    /// The length of the payload in bytes of UTF-8.
    pub fn len(&self) -> (r: usize)
        ensures
            r == encode_utf8(self.0@).len() as usize,
    {
        self.0.as_str().len()
    }
}

impl ResponseBodyPayload for StringResponseBodyPayload {
    open spec fn text(&self) -> Seq<char> {
        self.0@
    }

    open spec fn content_type(&self) -> Seq<char> {
        "text/plain"@
    }

    fn as_str(&self) -> (r: &str) {
        self.0.as_str()
    }

    fn get_content_type(&self) -> (r: &str) {
        "text/plain"
    }

    fn as_body(&self) -> (r: Option<Box<Self>>)
        ensures
            r matches Some(b) && b.0@ == self.0@,
    {
        Some(Box::new(StringResponseBodyPayload(self.0.clone())))
    }
}

} // verus!
