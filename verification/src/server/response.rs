//! The response that a route callback fills and the server writes out.
use crate::server::status::Status;
use crate::table::Table;
use crate::text::{chars_of, decimal, push_all, push_decimal};
use core::fmt;
use std::io;
use vstd::prelude::*;

verus! {

/// `core::fmt::Error`, carried in [SendError] as an opaque value.
#[verifier::external_type_specification]
#[verifier::external_body]
pub struct ExFmtError(fmt::Error);

/// `std::io::Error`, carried in [SendError] as an opaque value.
#[verifier::external_type_specification]
#[verifier::external_body]
pub struct ExIoError(io::Error);

/// Why sending a response failed.
#[derive(Debug)]
pub enum SendError {
    Format(fmt::Error),
    IO(io::Error),
}

impl From<fmt::Error> for SendError {
    fn from(item: fmt::Error) -> (r: SendError) {
        SendError::Format(item)
    }
}

impl vstd::std_specs::convert::FromSpecImpl<fmt::Error> for SendError {
    open spec fn obeys_from_spec() -> bool {
        true
    }

    open spec fn from_spec(item: fmt::Error) -> SendError {
        SendError::Format(item)
    }
}

impl From<io::Error> for SendError {
    fn from(item: io::Error) -> (r: SendError) {
        SendError::IO(item)
    }
}

impl vstd::std_specs::convert::FromSpecImpl<io::Error> for SendError {
    open spec fn obeys_from_spec() -> bool {
        true
    }

    open spec fn from_spec(item: io::Error) -> SendError {
        SendError::IO(item)
    }
}

/// The lines `key: value`, each ended by `\n`, of the headers `ps` in order.
pub open spec fn header_lines(ps: Seq<(Seq<char>, Seq<char>)>) -> Seq<char>
    decreases ps.len(),
{
    if ps.len() == 0 {
        seq![]
    } else {
        header_lines(ps.drop_last()) + ps.last().0 + ": "@ + ps.last().1 + "\n"@
    }
}

/// The text written for a response: the status line, the header lines, an
/// empty line, the body and an empty line, each ended by `\n`.
pub open spec fn response_text(
    status: Status,
    headers: Seq<(Seq<char>, Seq<char>)>,
    body: Seq<char>,
) -> Seq<char> {
    "HTTP/1.1"@ + " "@ + decimal(status.number() as nat) + " "@ + status.phrase() + "\n"@
        + header_lines(headers) + "\n"@ + body + "\n"@ + "\n"@
}

/// A response: status, headers and body.
pub struct Response {
    headers: Table<String>,
    body: String,
    status: Status,
}

impl Response {
    /// The headers, in the order they were first set.
    pub closed spec fn header_pairs(self) -> Seq<(Seq<char>, Seq<char>)> {
        self.headers@
    }

    /// The body.
    pub closed spec fn body_text(self) -> Seq<char> {
        self.body@
    }

    /// The status.
    pub closed spec fn status_value(self) -> Status {
        self.status
    }

    /// An empty `200 OK` response.
    pub fn new() -> (r: Self)
        ensures
            r.header_pairs() == Seq::<(Seq<char>, Seq<char>)>::empty(),
            r.body_text() == Seq::<char>::empty(),
            r.status_value() == Status::OK,
    {
        Response { headers: Table::new(), body: String::new(), status: Status::OK }
    }

    /// Sets a header, overriding any existing value if the key already exists.
    pub fn set_header(&mut self, key: String, val: String)
        ensures
            final(self).header_pairs() == crate::table::insert_pair(
                old(self).header_pairs(),
                key@,
                val@,
            ),
            final(self).body_text() == old(self).body_text(),
            final(self).status_value() == old(self).status_value(),
    {
        self.headers.insert(key, val);
    }

    /// Sets the status.
    pub fn set_status(&mut self, status: Status)
        ensures
            final(self).status_value() == status,
            final(self).header_pairs() == old(self).header_pairs(),
            final(self).body_text() == old(self).body_text(),
    {
        self.status = status;
    }

    /// Sets the body.
    pub fn set_body(&mut self, body: String)
        ensures
            final(self).body_text() == body@,
            final(self).header_pairs() == old(self).header_pairs(),
            final(self).status_value() == old(self).status_value(),
    {
        self.body = body;
    }

    /// The text to write for this response. Writing to a `String` does not
    /// fail, so the result is always `Ok`.
    ///
    /// The status line gives the status by its number ([Status::code], `200`
    /// for [Status::OK]) followed by its reason phrase ([Status::as_string]):
    /// `HTTP/1.1 200 OK`.
    pub fn build_write_response(&self) -> (r: Result<String, SendError>)
        ensures
            r matches Ok(s) && s@ == response_text(
                self.status_value(),
                self.header_pairs(),
                self.body_text(),
            ),
    {
        let newline = chars_of("\n");
        let space = chars_of(" ");
        let mut w = "HTTP/1.1".to_owned();
        push_all(&mut w, &space);
        push_decimal(&mut w, self.status.code() as usize);
        push_all(&mut w, &space);
        push_all(&mut w, &chars_of(self.status.as_string()));
        push_all(&mut w, &newline);
        let ghost head = w@;
        let colon = chars_of(": ");
        let ghost ps = self.headers@;
        let mut i: usize = 0;
        while i < self.headers.len()
            invariant
                i <= ps.len(),
                ps == self.headers@,
                colon@ == ": "@,
                newline@ == "\n"@,
                w@ == head + header_lines(ps.take(i as int)),
            decreases ps.len() - i,
        {
            push_all(&mut w, &chars_of(self.headers.key_at(i).as_str()));
            push_all(&mut w, &colon);
            push_all(&mut w, &chars_of(self.headers.value_at(i).as_str()));
            push_all(&mut w, &newline);
            proof {
                assert(ps.take(i + 1).drop_last() == ps.take(i as int));
                assert(ps.take(i + 1).last() == ps[i as int]);
            }
            i = i + 1;
        }
        assert(ps.take(ps.len() as int) == ps);
        push_all(&mut w, &newline);
        push_all(&mut w, &chars_of(self.body.as_str()));
        push_all(&mut w, &newline);
        push_all(&mut w, &newline);
        Ok(w)
    }
}

} // verus!
