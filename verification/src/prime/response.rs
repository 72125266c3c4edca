//! HTTP responses and their body payloads.
use crate::prime::status_code::StatusCode;
use crate::table::{insert_pair, lookup, Table};
use crate::text::{chars_of, decimal, push_all, push_decimal};
use vstd::prelude::*;

verus! {

/// A valid body payload for a response.
pub trait ResponseBodyPayload: core::fmt::Debug + Clone + Sized {
    /// The text of the payload.
    spec fn text(&self) -> Seq<char>;

    /// The `Content-Type` of the payload.
    spec fn content_type(&self) -> Seq<char>;

    /// A string representation of the payload.
    fn as_str(&self) -> (r: &str)
        ensures
            r@ == self.text(),
    ;

    /// The `Content-Type` of the payload.
    fn get_content_type(&self) -> (r: &str)
        ensures
            r@ == self.content_type(),
    ;

    /// Converts the payload to an optional boxed payload.
    fn as_body(&self) -> (r: Option<Box<Self>>)
        ensures
            r matches Some(b) ==> b.text() == self.text() && b.content_type()
                == self.content_type(),
    ;
}

/// A plain-text payload.
#[derive(Debug, Clone)]
pub struct StringResponseBodyPayload(pub String);

impl StringResponseBodyPayload {
    /// A payload holding `payload`.
    pub fn new(payload: &str) -> (r: Self)
        ensures
            r.0@ == payload@,
    {
        StringResponseBodyPayload(payload.to_owned())
    }
}

impl ResponseBodyPayload for StringResponseBodyPayload {
    open spec fn text(&self) -> Seq<char> {
        self.0@
    }

    open spec fn content_type(&self) -> Seq<char> {
        "text/plain"@
    }

    fn as_str(&self) -> (r: &str) {
        self.0.as_str()
    }

    fn get_content_type(&self) -> (r: &str) {
        "text/plain"
    }

    fn as_body(&self) -> (r: Option<Box<Self>>)
        ensures
            r matches Some(b) && b.0@ == self.0@,
    {
        Some(Box::new(StringResponseBodyPayload(self.0.clone())))
    }
}

/// An HTTP response.
#[derive(Debug)]
pub struct Response<T: ResponseBodyPayload> {
    pub version: String,
    pub status: StatusCode,
    pub headers: Table<String>,
    pub body: Option<Box<T>>,
}

/// The headers once a body with content type `content_type` is set: the
/// `Content-Type` header is added where it is absent.
pub open spec fn headers_with_body_type(
    headers: Seq<(Seq<char>, Seq<char>)>,
    content_type: Seq<char>,
) -> Seq<(Seq<char>, Seq<char>)> {
    if lookup(headers, "Content-Type"@) is Some {
        headers
    } else {
        insert_pair(headers, "Content-Type"@, content_type)
    }
}

/// Setting a body keeps a `Content-Type` that is already set, and sets the
/// body's own content type where none is.
pub proof fn lemma_body_content_type(headers: Seq<(Seq<char>, Seq<char>)>, content_type: Seq<char>)
    ensures
        lookup(headers, "Content-Type"@) is Some ==> lookup(
            headers_with_body_type(headers, content_type),
            "Content-Type"@,
        ) == lookup(headers, "Content-Type"@),
        lookup(headers, "Content-Type"@) is None ==> lookup(
            headers_with_body_type(headers, content_type),
            "Content-Type"@,
        ) == Some(content_type),
{
    crate::table::lemma_lookup_insert(headers, "Content-Type"@, content_type, "Content-Type"@);
}

impl<T: ResponseBodyPayload> Response<T> {
    /// Sets a header, overriding any existing value if the key already exists.
    pub fn set_header(&mut self, key: &str, val: &str)
        ensures
            final(self).headers@ == insert_pair(old(self).headers@, key@, val@),
            final(self).version == old(self).version,
            final(self).status == old(self).status,
            final(self).body == old(self).body,
    {
        self.headers.insert(key.to_owned(), val.to_owned());
    }

    /// Sets the body of the response.
    ///
    /// If the `Content-Type` header is not set, it is inferred from the new body.
    pub fn set_body(&mut self, body: Option<Box<T>>)
        ensures
            final(self).body == body,
            final(self).headers@ == (match body {
                Some(b) => headers_with_body_type(old(self).headers@, b.content_type()),
                None => old(self).headers@,
            }),
            final(self).version == old(self).version,
            final(self).status == old(self).status,
    {
        self.body = body;
        if let Some(b) = &self.body {
            if self.headers.get("Content-Type").is_none() {
                let content_type = b.get_content_type().to_owned();
                self.headers.insert("Content-Type".to_owned(), content_type);
            }
        }
    }
}

/// The lines `key: value`, each ended by CRLF, of the headers `ps` in order.
pub open spec fn crlf_header_lines(ps: Seq<(Seq<char>, Seq<char>)>) -> Seq<char>
    decreases ps.len(),
{
    if ps.len() == 0 {
        seq![]
    } else {
        crlf_header_lines(ps.drop_last()) + ps.last().0 + ": "@ + ps.last().1 + "\r\n"@
    }
}

impl<T: ResponseBodyPayload> Response<T> {
    /// The text of the status line, the header lines and the body, as
    /// written on the wire.
    pub open spec fn wire_text(self) -> Seq<char> {
        self.version@ + " "@ + decimal(self.status.number() as nat) + " "@ + self.status.phrase()
            + "\r\n"@ + crlf_header_lines(self.headers@) + "\r\n"@ + match self.body {
            Some(b) => b.text(),
            None => Seq::empty(),
        }
    }

    /// The response as written on the wire: status line, header lines, an
    /// empty line and the body, lines ended by CRLF.
    pub fn to_text(&self) -> (r: String)
        ensures
            r@ == self.wire_text(),
    {
        let crlf = chars_of("\r\n");
        let space = chars_of(" ");
        let mut w = self.version.clone();
        push_all(&mut w, &space);
        push_decimal(&mut w, self.status.code() as usize);
        push_all(&mut w, &space);
        push_all(&mut w, &chars_of(self.status.reason()));
        push_all(&mut w, &crlf);
        let ghost head = w@;
        let colon = chars_of(": ");
        let ghost ps = self.headers@;
        let mut i: usize = 0;
        while i < self.headers.len()
            invariant
                i <= ps.len(),
                ps == self.headers@,
                colon@ == ": "@,
                crlf@ == "\r\n"@,
                w@ == head + crlf_header_lines(ps.take(i as int)),
            decreases ps.len() - i,
        {
            push_all(&mut w, &chars_of(self.headers.key_at(i).as_str()));
            push_all(&mut w, &colon);
            push_all(&mut w, &chars_of(self.headers.value_at(i).as_str()));
            push_all(&mut w, &crlf);
            proof {
                assert(ps.take(i + 1).drop_last() == ps.take(i as int));
                assert(ps.take(i + 1).last() == ps[i as int]);
            }
            i = i + 1;
        }
        assert(ps.take(ps.len() as int) == ps);
        push_all(&mut w, &crlf);
        match &self.body {
            Some(b) => push_all(&mut w, &chars_of(b.as_str())),
            None => {},
        }
        w
    }
}

impl<T: ResponseBodyPayload> Default for Response<T> {
    fn default() -> (r: Self)
        ensures
            r.version@ == "HTTP/1.1"@,
            r.status == StatusCode::OK,
            r.headers@ == Seq::<(Seq<char>, Seq<char>)>::empty(),
            r.body is None,
    {
        Response {
            version: "HTTP/1.1".to_owned(),
            status: StatusCode::OK,
            headers: Table::new(),
            body: None,
        }
    }
}

} // verus!
