//! Parsing of an HTTP request: start line, headers and body.
//!
//! Each reading function is stated as a spec function over the bytes left in
//! the reader, which gives both the outcome and the bytes left afterwards.
use crate::rapid::header::{header_value, HeaderValue};
use crate::rapid::method::{method_named, Method};
use crate::rapid::version::Version;
use crate::reader::{
    after_line, lemma_ascii_line, lemma_line_len_bound, line_text, utf8_string, ByteReader,
    ReadError,
};
use crate::table::{insert_pair, lookup, Table, ValueView};
use crate::text::{
    decimal, is_white, lemma_decimal_round_trip, lemma_find_at, lemma_trim_of, lemma_trim_white,
    chars_eq, chars_of, parse_usize, split_once, split_once_chars, string_of, trim, trim_chars,
    usize_value, views, words, words_chars,
};
use core::num::ParseIntError;
use std::string::FromUtf8Error;
use vstd::prelude::*;
use vstd::utf8::{decode_utf8, encode_utf8, is_ascii_chars, valid_utf8};

verus! {

/// All errors that can arise from [Request::from_reader].
#[derive(Debug)]
pub enum RequestError {
    /// An error occurred while reading the HTTP request.
    Read(ReadError),
    /// The HTTP version used is not supported OR the request line was improperly formed.
    UnsupportedHttpVersion,
    /// The HTTP method in the request line is not supported.
    InvalidMethod,
    /// An invalid header line: a value that several are given for where one
    /// is expected (`Content-Length: 12, 12`), an empty value (`Host:`), or
    /// no colon (`X-Rapid-Server`).
    InvalidHeaderValue,
    /// The body's encoding was expected to be UTF-8 but received another encoding.
    InvalidBodyEncoding(FromUtf8Error),
    /// Invalid value (not an integer) for `Content-Length`.
    InvalidBodyLength(ParseIntError),
    /// The message content format is not supported: only
    /// `Content-Type: text/plain` without `Transfer-Encoding` is.
    InvalidMediaType,
    /// The `Content-Length` header was expected (because the HTTP method
    /// requires it) but was not found.
    ContentLengthRequired,
}

/// What a [RequestError] tells.
pub enum RequestFailure {
    Read(ReadError),
    UnsupportedHttpVersion,
    InvalidMethod,
    InvalidHeaderValue,
    InvalidBodyEncoding,
    InvalidBodyLength,
    InvalidMediaType,
    ContentLengthRequired,
}

impl View for RequestError {
    type V = RequestFailure;

    open spec fn view(&self) -> RequestFailure {
        match self {
            RequestError::Read(e) => RequestFailure::Read(*e),
            RequestError::UnsupportedHttpVersion => RequestFailure::UnsupportedHttpVersion,
            RequestError::InvalidMethod => RequestFailure::InvalidMethod,
            RequestError::InvalidHeaderValue => RequestFailure::InvalidHeaderValue,
            RequestError::InvalidBodyEncoding(_) => RequestFailure::InvalidBodyEncoding,
            RequestError::InvalidBodyLength(_) => RequestFailure::InvalidBodyLength,
            RequestError::InvalidMediaType => RequestFailure::InvalidMediaType,
            RequestError::ContentLengthRequired => RequestFailure::ContentLengthRequired,
        }
    }
}

/// The start line at the front of `rem`: its white-space separated words
/// must be a method, a target and `HTTP/1.1`.
pub open spec fn start_line(rem: Seq<u8>) -> Result<(Method, Seq<char>, Version), RequestFailure> {
    match line_text(rem) {
        None => Err(RequestFailure::Read(ReadError::InvalidData)),
        Some(t) => {
            let parts = words(t);
            if parts.len() == 3 {
                match method_named(parts[0]) {
                    None => Err(RequestFailure::InvalidMethod),
                    Some(m) => if parts[2] == "HTTP/1.1"@ {
                        Ok((m, parts[1], Version::HTTP1_1))
                    } else {
                        Err(RequestFailure::UnsupportedHttpVersion)
                    },
                }
            } else {
                Err(RequestFailure::UnsupportedHttpVersion)
            }
        },
    }
}

/// Reads the start line: method, target and version.
pub fn read_start_line(reader: &mut ByteReader) -> (r: Result<(Method, String, Version), RequestError>)
    ensures
        final(reader)@ == after_line(old(reader)@),
        match r {
            Ok((m, p, v)) => start_line(old(reader)@) == Ok::<
                (Method, Seq<char>, Version),
                RequestFailure,
            >((m, p@, v)),
            Err(e) => start_line(old(reader)@) == Err::<
                (Method, Seq<char>, Version),
                RequestFailure,
            >(e@),
        },
{
    let line = match reader.read_line() {
        Ok(line) => line,
        Err(e) => return Err(RequestError::Read(e)),
    };
    let parts = words_chars(&chars_of(line.as_str()));
    if parts.len() == 3 {
        assert(views(parts@)[0] == parts@[0]@);
        assert(views(parts@)[1] == parts@[1]@);
        assert(views(parts@)[2] == parts@[2]@);
        let method = match Method::from_str(string_of(&parts[0]).as_str()) {
            Ok(m) => m,
            Err(_) => return Err(RequestError::InvalidMethod),
        };
        let path = string_of(&parts[1]);
        let version = match Version::from_str(string_of(&parts[2]).as_str()) {
            Ok(v) => v,
            Err(_) => return Err(RequestError::UnsupportedHttpVersion),
        };
        Ok((method, path, version))
    } else {
        Err(RequestError::UnsupportedHttpVersion)
    }
}

/// The headers at the front of `rem`, added to `acc`, up to the first line
/// that is empty once trimmed (or the end of the input); and the bytes left.
/// Each other line must be `key:value`, with a value that is not blank.
pub open spec fn headers_from(rem: Seq<u8>, acc: Seq<(Seq<char>, ValueView)>) -> (Result<
    Seq<(Seq<char>, ValueView)>,
    RequestFailure,
>, Seq<u8>)
    decreases rem.len(),
{
    match line_text(rem) {
        None => (Err(RequestFailure::Read(ReadError::InvalidData)), after_line(rem)),
        Some(t) => {
            if trim(t).len() == 0 {
                (Ok(acc), after_line(rem))
            } else {
                match split_once(trim(t), ":"@) {
                    None => (Err(RequestFailure::InvalidHeaderValue), after_line(rem)),
                    Some((k, v)) => match header_value(v) {
                        None => (Err(RequestFailure::InvalidHeaderValue), after_line(rem)),
                        Some(value) => if rem.len() == 0 {
                            (Ok(acc), rem)
                        } else {
                            proof {
                                lemma_line_len_bound(rem);
                            }
                            headers_from(after_line(rem), insert_pair(acc, trim(k), value))
                        },
                    },
                }
            }
        },
    }
}

/// Reads the headers up to the first blank line.
pub fn read_headers(reader: &mut ByteReader) -> (r: Result<Table<HeaderValue>, RequestError>)
    ensures
        final(reader)@ == headers_from(old(reader)@, seq![]).1,
        match r {
            Ok(t) => headers_from(old(reader)@, seq![]).0 == Ok::<
                Seq<(Seq<char>, ValueView)>,
                RequestFailure,
            >(t@),
            Err(e) => headers_from(old(reader)@, seq![]).0 == Err::<
                Seq<(Seq<char>, ValueView)>,
                RequestFailure,
            >(e@),
        },
{
    let ghost start = reader@;
    let mut headers: Table<HeaderValue> = Table::new();
    let colon = chars_of(":");
    loop
        invariant
            colon@ == ":"@,
            start == old(reader)@,
            headers_from(reader@, headers@) == headers_from(start, seq![]),
        decreases reader@.len(),
    {
        let ghost before = reader@;
        let line = match reader.read_line() {
            Ok(line) => line,
            Err(e) => {
                assert(line_text(before) is None);
                return Err(RequestError::Read(e));
            },
        };
        let trimmed = trim_chars(&chars_of(line.as_str()));
        if trimmed.len() == 0 {
            return Ok(headers);
        }
        proof {
            lemma_line_len_bound(before);
            if before.len() == 0 {
                assert(before.take(0) =~= Seq::<u8>::empty());
                assert(decode_utf8(Seq::<u8>::empty()) =~= Seq::<char>::empty());
            }
        }
        match split_once_chars(&trimmed, &colon) {
            Some((k, v)) => {
                let key = string_of(&trim_chars(&k));
                let value = match HeaderValue::from_str(string_of(&v).as_str()) {
                    Ok(value) => value,
                    Err(_) => return Err(RequestError::InvalidHeaderValue),
                };
                headers.insert(key, value);
            },
            None => return Err(RequestError::InvalidHeaderValue),
        }
    }
}

/// The text of an optional string.
pub open spec fn text_of(o: Option<String>) -> Option<Seq<char>> {
    match o {
        Some(s) => Some(s@),
        None => None,
    }
}

/// A body of `n` bytes at the front of `rem`: none where `n` is zero, an
/// `UnexpectedEof` read error where fewer bytes are left (all of them
/// consumed), an encoding error where the bytes are not UTF-8.
pub open spec fn body_with_length(rem: Seq<u8>, n: nat) -> (Result<Option<Seq<char>>, RequestFailure>, Seq<u8>) {
    if n == 0 {
        (Ok(None), rem)
    } else if n > rem.len() {
        (Err(RequestFailure::Read(ReadError::UnexpectedEof)), seq![])
    } else {
        let bytes = rem.take(n as int);
        (
            if valid_utf8(bytes) {
                Ok(Some(decode_utf8(bytes)))
            } else {
                Err(RequestFailure::InvalidBodyEncoding)
            },
            rem.skip(n as int),
        )
    }
}

/// Reads a body of `length` bytes.
pub fn read_body_with_content_length(reader: &mut ByteReader, length: usize) -> (r: Result<
    Option<String>,
    RequestError,
>)
    ensures
        final(reader)@ == body_with_length(old(reader)@, length as nat).1,
        match r {
            Ok(b) => body_with_length(old(reader)@, length as nat).0 == Ok::<
                Option<Seq<char>>,
                RequestFailure,
            >(text_of(b)),
            Err(e) => body_with_length(old(reader)@, length as nat).0 == Err::<
                Option<Seq<char>>,
                RequestFailure,
            >(e@),
        },
{
    if length == 0 {
        return Ok(None);
    }
    match reader.read_exact(length) {
        Err(e) => {
            assert(reader@ =~= Seq::<u8>::empty());
            Err(RequestError::Read(e))
        },
        Ok(buf) => match utf8_string(buf) {
            Ok(body) => Ok(Some(body)),
            Err(e) => Err(RequestError::InvalidBodyEncoding(e)),
        },
    }
}

/// The body of a request with method `m` and headers `hs` at the front of
/// `rem`: none for a method that does not allow one; otherwise
/// `Transfer-Encoding` must be absent, `Content-Type` must be the single
/// value `text/plain`, and `Content-Length` a single number of bytes.
pub open spec fn body_of(rem: Seq<u8>, m: Method, hs: Seq<(Seq<char>, ValueView)>) -> (Result<Option<Seq<char>>, RequestFailure>, Seq<u8>) {
    if !m.body_allowed() {
        (Ok(None), rem)
    } else if lookup(hs, "Transfer-Encoding"@) is Some {
        (Err(RequestFailure::InvalidMediaType), rem)
    } else if lookup(hs, "Content-Type"@) != Some(ValueView::Single("text/plain"@)) {
        (Err(RequestFailure::InvalidMediaType), rem)
    } else {
        match lookup(hs, "Content-Length"@) {
            None => (Err(RequestFailure::ContentLengthRequired), rem),
            Some(ValueView::Many(_)) => (Err(RequestFailure::InvalidHeaderValue), rem),
            Some(ValueView::Single(l)) => match usize_value(l) {
                None => (Err(RequestFailure::InvalidBodyLength), rem),
                Some(n) => body_with_length(rem, n as nat),
            },
        }
    }
}

/// Reads the body of a request with the given method and headers.
pub fn get_body(reader: &mut ByteReader, method: &Method, headers: &Table<HeaderValue>) -> (r: Result<
    Option<String>,
    RequestError,
>)
    ensures
        final(reader)@ == body_of(old(reader)@, *method, headers@).1,
        match r {
            Ok(b) => body_of(old(reader)@, *method, headers@).0 == Ok::<
                Option<Seq<char>>,
                RequestFailure,
            >(text_of(b)),
            Err(e) => body_of(old(reader)@, *method, headers@).0 == Err::<
                Option<Seq<char>>,
                RequestFailure,
            >(e@),
        },
{
    if !method.allows_body() {
        return Ok(None);
    } else if headers.get("Transfer-Encoding").is_some() {
        return Err(RequestError::InvalidMediaType);
    }
    let plain = match headers.get("Content-Type") {
        Some(HeaderValue::Single(val)) => chars_eq(&chars_of(val.as_str()), &chars_of("text/plain")),
        _ => false,
    };
    if !plain {
        return Err(RequestError::InvalidMediaType);
    }
    let length_header = match headers.get("Content-Length") {
        Some(h) => h,
        None => return Err(RequestError::ContentLengthRequired),
    };
    let length = match length_header {
        HeaderValue::Single(len) => match parse_usize(len.as_str()) {
            Ok(n) => n,
            Err(e) => return Err(RequestError::InvalidBodyLength(e)),
        },
        HeaderValue::Many(_) => return Err(RequestError::InvalidHeaderValue),
    };
    read_body_with_content_length(reader, length)
}

/// An HTTP request.
#[derive(Debug)]
pub struct Request {
    pub method: Method,
    pub path: String,
    pub version: Version,
    pub headers: Table<HeaderValue>,
    pub body: Option<String>,
}

/// What a [Request] holds.
pub struct RequestView {
    pub method: Method,
    pub path: Seq<char>,
    pub version: Version,
    pub headers: Seq<(Seq<char>, ValueView)>,
    pub body: Option<Seq<char>>,
}

impl View for Request {
    type V = RequestView;

    open spec fn view(&self) -> RequestView {
        RequestView {
            method: self.method,
            path: self.path@,
            version: self.version,
            headers: self.headers@,
            body: text_of(self.body),
        }
    }
}

/// The request at the front of `rem`, and the bytes left.
pub open spec fn request_of(rem: Seq<u8>) -> (Result<RequestView, RequestFailure>, Seq<u8>) {
    match start_line(rem) {
        Err(e) => (Err(e), after_line(rem)),
        Ok((m, path, version)) => {
            let (hs, rest) = headers_from(after_line(rem), seq![]);
            match hs {
                Err(e) => (Err(e), rest),
                Ok(headers) => {
                    let (b, last) = body_of(rest, m, headers);
                    (
                        match b {
                            Err(e) => Err(e),
                            Ok(body) => Ok(RequestView { method: m, path, version, headers, body }),
                        },
                        last,
                    )
                },
            }
        },
    }
}

/// The view of a parse outcome.
pub open spec fn outcome(r: Result<Request, RequestError>) -> Result<RequestView, RequestFailure> {
    match r {
        Ok(req) => Ok(req@),
        Err(e) => Err(e@),
    }
}

impl Request {
    /// Creates an HTTP request from a reader.
    pub fn from_reader(reader: &mut ByteReader) -> (r: Result<Request, RequestError>)
        ensures
            final(reader)@ == request_of(old(reader)@).1,
            request_of(old(reader)@).0 == outcome(r),
    {
        let (method, path, version) = match read_start_line(reader) {
            Ok(parts) => parts,
            Err(e) => return Err(e),
        };
        let headers = match read_headers(reader) {
            Ok(h) => h,
            Err(e) => return Err(e),
        };
        let body = match get_body(reader, &method, &headers) {
            Ok(b) => b,
            Err(e) => return Err(e),
        };
        Ok(Request { method, path, version, headers, body })
    }
}

// ---------------------------------------------------------------------------
// Laws
// ---------------------------------------------------------------------------

/// A request whose method does not allow a body is given none.
pub proof fn lemma_no_body_for_bodiless_method(rem: Seq<u8>)
    ensures
        request_of(rem).0 matches Ok(r) ==> (!r.method.body_allowed() ==> r.body is None),
{
}

/// A body is read only under `Content-Type: text/plain`: for a method that
/// allows a body, any other content type (or none) is refused before the
/// length is looked at, and nothing more is read.
pub proof fn lemma_media_type_refused(rem: Seq<u8>, m: Method, hs: Seq<(Seq<char>, ValueView)>)
    requires
        m.body_allowed(),
        lookup(hs, "Content-Type"@) != Some(ValueView::Single("text/plain"@)),
    ensures
        body_of(rem, m, hs) == (Err::<Option<Seq<char>>, RequestFailure>(
            RequestFailure::InvalidMediaType,
        ), rem),
{
}

/// `Transfer-Encoding` is refused for a method that allows a body.
pub proof fn lemma_transfer_encoding_refused(rem: Seq<u8>, m: Method, hs: Seq<(Seq<char>, ValueView)>)
    requires
        m.body_allowed(),
        lookup(hs, "Transfer-Encoding"@) is Some,
    ensures
        body_of(rem, m, hs) == (Err::<Option<Seq<char>>, RequestFailure>(
            RequestFailure::InvalidMediaType,
        ), rem),
{
}

/// A header block of one line `k:v` keeps the whole of `v`, colons
/// included, as the value under the trimmed key: the key is cut at the
/// first colon only.
pub proof fn lemma_header_line_keeps_whole_value(k: Seq<char>, v: Seq<char>, rest: Seq<u8>)
    requires
        is_ascii_chars(k),
        is_ascii_chars(v),
        k.len() > 0,
        v.len() > 0,
        !is_white(k[0]),
        !is_white(v.last()),
        forall|i: int| 0 <= i < k.len() ==> k[i] != ':' && k[i] != '\n',
        forall|i: int| 0 <= i < v.len() ==> v[i] != '\n',
        header_value(v) is Some,
    ensures
        headers_from(encode_utf8(k + ":"@ + v + "\r\n"@) + encode_utf8("\r\n"@) + rest, seq![]) == (
            Ok::<Seq<(Seq<char>, ValueView)>, RequestFailure>(
                seq![(trim(k), header_value(v)->0)],
            ),
            rest,
        ),
{
    reveal_strlit(":");
    reveal_strlit("\r\n");
    let crlf = "\r\n"@;
    let t = k + ":"@ + v + crlf;
    let n: int = k.len() + 1int + v.len();
    assert(t.len() == n + 2);
    assert forall|i: int| 0 <= i < t.len() implies '\0' <= #[trigger] t[i] <= '\u{7f}' by {
        if i < k.len() {
            assert(t[i] == k[i]);
        } else if i == k.len() {
        } else if i < n {
            assert(t[i] == v[i - k.len() - 1]);
        }
    }
    assert forall|i: int| 0 <= i < t.len() - 1 implies t[i] != '\n' by {
        if i < k.len() {
            assert(t[i] == k[i]);
        } else if k.len() < i < n {
            assert(t[i] == v[i - k.len() - 1]);
        }
    }
    let second = encode_utf8(crlf) + rest;
    assert(encode_utf8(t) + encode_utf8(crlf) + rest =~= encode_utf8(t) + second);
    lemma_ascii_line(t, second);
    assert(t[0] == k[0]);
    assert(t[n - 1] == v.last());
    lemma_trim_of(t, 0, n);
    let line = t.subrange(0, n);
    assert(line =~= k + ":"@ + v);
    assert(line.subrange(k.len() as int, k.len() + 1int) =~= ":"@);
    assert forall|j: int| 0 <= j < k.len() implies #[trigger] line.subrange(j, j + 1) != ":"@ by {
        assert(line.subrange(j, j + 1)[0] == k[j]);
    }
    lemma_find_at(line, ":"@, k.len() as int);
    assert(line.take(k.len() as int) =~= k);
    assert(line.skip(k.len() + 1int) =~= v);
    let hv = header_value(v)->0;
    assert(encode_utf8(t) + second == encode_utf8(t) + second);
    lemma_line_len_bound(encode_utf8(t) + second);
    assert(crlf.last() == '\n' && crlf[0] == '\r');
    lemma_ascii_line(crlf, rest);
    lemma_trim_white(crlf);
    let acc = insert_pair(Seq::<(Seq<char>, ValueView)>::empty(), trim(k), hv);
    assert(acc =~= seq![(trim(k), hv)]);
    let rem = encode_utf8(t) + second;
    assert(trim(t) == line);
    assert(split_once(trim(t), ":"@) == Some((k, v)));
    assert(headers_from(rem, seq![]) == headers_from(second, acc));
    assert(headers_from(second, acc) == (
        Ok::<Seq<(Seq<char>, ValueView)>, RequestFailure>(acc),
        rest,
    ));
}

/// POST, PUT, PATCH and QUERY read their body: with `Content-Type:
/// text/plain`, no `Transfer-Encoding` and a `Content-Length` of `n`, the
/// body is the first `n` bytes decoded, and the rest is left.
pub proof fn lemma_body_methods_read_body(
    rem: Seq<u8>,
    m: Method,
    hs: Seq<(Seq<char>, ValueView)>,
    n: usize,
)
    requires
        m == Method::POST || m == Method::PUT || m == Method::PATCH || m == Method::QUERY,
        lookup(hs, "Transfer-Encoding"@) is None,
        lookup(hs, "Content-Type"@) == Some(ValueView::Single("text/plain"@)),
        lookup(hs, "Content-Length"@) == Some(ValueView::Single(decimal(n as nat))),
        0 < n <= rem.len(),
        valid_utf8(rem.take(n as int)),
    ensures
        body_of(rem, m, hs) == (
            Ok::<Option<Seq<char>>, RequestFailure>(Some(decode_utf8(rem.take(n as int)))),
            rem.skip(n as int),
        ),
{
    lemma_decimal_round_trip(n);
}

/// Every other method reads no body and leaves the input as it is.
pub proof fn lemma_other_methods_read_nothing(rem: Seq<u8>, m: Method, hs: Seq<(Seq<char>, ValueView)>)
    requires
        !(m == Method::POST || m == Method::PUT || m == Method::PATCH || m == Method::QUERY),
    ensures
        body_of(rem, m, hs) == (Ok::<Option<Seq<char>>, RequestFailure>(None), rem),
{
}

/// A start line is accepted only with the version `HTTP/1.1`: an accepted
/// line has three words, a known method first and `HTTP/1.1` last; a line of
/// three words with a known method and any other last word is refused as an
/// unsupported version.
pub proof fn lemma_start_line_version(rem: Seq<u8>)
    ensures
        start_line(rem) matches Ok((m, p, v)) ==> (line_text(rem) matches Some(t) && words(t).len()
            == 3 && method_named(words(t)[0]) == Some(m) && p == words(t)[1] && words(t)[2]
            == "HTTP/1.1"@ && v == Version::HTTP1_1),
        line_text(rem) matches Some(t) && words(t).len() == 3 && method_named(words(t)[0]) is Some
            && words(t)[2] != "HTTP/1.1"@ ==> start_line(rem) == Err::<
            (Method, Seq<char>, Version),
            RequestFailure,
        >(RequestFailure::UnsupportedHttpVersion),
{
}

} // verus!
