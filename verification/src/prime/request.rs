//! Parsing of an HTTP request: start line, query string, headers and body.
//!
//! Each reading function is stated as a spec function over the bytes left in
//! the reader, which gives both the outcome and the bytes left afterwards.
use crate::prime::http_method::{http_method_named, HttpMethod, InvalidHttpMethodError};
use crate::reader::{
    after_line, lemma_ascii_line, lemma_line_len_bound, line_text, utf8_string, ByteReader,
    ReadError,
};
use crate::table::{insert_pair, lemma_key_index, lookup, Table, ValueView};
use crate::text::{
    chars_eq, chars_of, decimal, is_white, lemma_decimal_round_trip, lemma_trim_of,
    lemma_trim_white, lemma_find_at, lemma_split_none, lemma_join_split, lemma_split_from_nonempty, ends_with, ends_with_chars, join, join_strings, parse_usize,
    push_all, push_decimal, slice_chars, split, split_chars, split_once, split_once_chars,
    string_of, string_views, strings_of, strip_suffix, trim, trim_chars, trim_end,
    trim_end_chars, usize_value, views,
};
use core::convert::Infallible;
use core::num::ParseIntError;
use std::str::FromStr;
use std::string::FromUtf8Error;
use vstd::prelude::*;
use vstd::utf8::{decode_utf8, encode_utf8, is_ascii_chars, valid_utf8};

verus! {

/// A value of the query string.
#[derive(Debug, PartialEq, Eq)]
pub enum QueryValue {
    Single(String),
    Many(Vec<String>),
}

/// A header value: one value, or several separated by `, `.
#[derive(Debug, PartialEq, Eq)]
pub enum HeaderValue {
    Single(String),
    Many(Vec<String>),
}

impl View for QueryValue {
    type V = ValueView;

    open spec fn view(&self) -> ValueView {
        match self {
            QueryValue::Single(s) => ValueView::Single(s@),
            QueryValue::Many(v) => ValueView::Many(string_views(v@)),
        }
    }
}

impl View for HeaderValue {
    type V = ValueView;

    open spec fn view(&self) -> ValueView {
        match self {
            HeaderValue::Single(s) => ValueView::Single(s@),
            HeaderValue::Many(v) => ValueView::Many(string_views(v@)),
        }
    }
}

/// The value that the text `s` holds: the pieces between `, `, as one value
/// where there is a single piece.
pub open spec fn comma_list_value(s: Seq<char>) -> ValueView {
    let parts = split(s, ", "@);
    if parts.len() > 1 {
        ValueView::Many(parts)
    } else {
        ValueView::Single(parts[0])
    }
}

/// The text of a value, its pieces joined by `, `.
pub open spec fn value_text(v: ValueView) -> Seq<char> {
    match v {
        ValueView::Single(s) => s,
        ValueView::Many(ps) => join(ps, ", "@),
    }
}

/// The header value that the characters `v` hold.
fn header_value_of(v: &Vec<char>) -> (r: HeaderValue)
    ensures
        r@ == comma_list_value(v@),
{
    let parts = split_chars(v, &chars_of(", "));
    proof {
        lemma_split_from_nonempty(v@, ", "@, 0, 0);
    }
    if parts.len() > 1 {
        let strings = strings_of(&parts);
        HeaderValue::Many(strings)
    } else {
        assert(views(parts@)[0] == parts@[0]@);
        HeaderValue::Single(string_of(&parts[0]))
    }
}

/// Writing a header value read from a text gives the text back.
pub proof fn lemma_header_value_text_round_trip(s: Seq<char>)
    ensures
        value_text(comma_list_value(s)) == s,
{
    reveal_strlit(", ");
    lemma_join_split(s, ", "@);
    lemma_split_from_nonempty(s, ", "@, 0, 0);
    let parts = split(s, ", "@);
    if parts.len() == 1 {
        assert(join(parts, ", "@) == parts[0]);
    }
}

impl HeaderValue {
    /// The value that `s` holds: the pieces between `, `, as a single value
    /// where there is one piece. It never fails.
    pub fn from_str(s: &str) -> (r: Result<HeaderValue, Infallible>)
        ensures
            r matches Ok(v) && v@ == comma_list_value(s@),
    {
        Ok(header_value_of(&chars_of(s)))
    }

    /// The text of the value, its pieces joined by `, `.
    pub fn to_string(&self) -> (r: String)
        ensures
            r@ == value_text(self@),
    {
        match self {
            HeaderValue::Single(s) => s.clone(),
            HeaderValue::Many(v) => join_strings(v, ", "),
        }
    }
}

impl FromStr for HeaderValue {
    type Err = Infallible;

    fn from_str(s: &str) -> (r: Result<HeaderValue, Infallible>)
        ensures
            r matches Ok(v) && v@ == comma_list_value(s@),
    {
        HeaderValue::from_str(s)
    }
}

/// All errors that can arise from [Request::parse].
#[derive(Debug)]
pub enum RequestParseError {
    /// An error occurred while reading the HTTP request.
    Read(ReadError),
    /// An error occurred while converting the body bytes to UTF-8.
    InvalidBodyEncoding(FromUtf8Error),
    /// An invalid method was encountered.
    InvalidHttpMethod(InvalidHttpMethodError),
    /// Invalid value for `Content-Length`.
    InvalidSize(ParseIntError),
    /// The `Transfer-Encoding` header is currently unsupported.
    UnsupportedTransferEncoding(String),
    /// The start line is malformed.
    MalformedStartLine(String),
    /// The header `Content-Length` was expected (because the HTTP method
    /// requires it) but was not found.
    LengthRequired,
    /// Currently, only `Content-Type: text/plain` is supported.
    UnsupportedContentType,
    /// When an invalid header value is received, such as `Content-Length: 12, 12`.
    InvalidHeaderValue,
}

/// What a [RequestParseError] tells: its kind and the texts that it holds.
pub enum ParseFailure {
    Read(ReadError),
    InvalidBodyEncoding,
    InvalidHttpMethod(Seq<char>),
    InvalidSize,
    UnsupportedTransferEncoding(Seq<char>),
    MalformedStartLine(Seq<char>),
    LengthRequired,
    UnsupportedContentType,
    InvalidHeaderValue,
}

impl View for RequestParseError {
    type V = ParseFailure;

    open spec fn view(&self) -> ParseFailure {
        match self {
            RequestParseError::Read(e) => ParseFailure::Read(*e),
            RequestParseError::InvalidBodyEncoding(_) => ParseFailure::InvalidBodyEncoding,
            RequestParseError::InvalidHttpMethod(e) => ParseFailure::InvalidHttpMethod(e.0@),
            RequestParseError::InvalidSize(_) => ParseFailure::InvalidSize,
            RequestParseError::UnsupportedTransferEncoding(s) => ParseFailure::UnsupportedTransferEncoding(s@),
            RequestParseError::MalformedStartLine(s) => ParseFailure::MalformedStartLine(s@),
            RequestParseError::LengthRequired => ParseFailure::LengthRequired,
            RequestParseError::UnsupportedContentType => ParseFailure::UnsupportedContentType,
            RequestParseError::InvalidHeaderValue => ParseFailure::InvalidHeaderValue,
        }
    }
}

// ---------------------------------------------------------------------------
// Start line
// ---------------------------------------------------------------------------

/// The message of a start line that has `n` parts instead of three.
pub open spec fn malformed_message(n: nat) -> Seq<char> {
    "Start line must have exactly three parts, but received "@ + decimal(n) + "."@
}

/// The start line at the front of `rem`: method, target and version, the
/// parts of the line between single spaces once trailing white space is
/// removed.
pub open spec fn start_line(rem: Seq<u8>) -> Result<(HttpMethod, Seq<char>, Seq<char>), ParseFailure> {
    match line_text(rem) {
        None => Err(ParseFailure::Read(ReadError::InvalidData)),
        Some(t) => {
            let parts = split(trim_end(t), " "@);
            if parts.len() == 3 {
                match http_method_named(parts[0]) {
                    Ok(m) => Ok((m, parts[1], parts[2])),
                    Err(name) => Err(ParseFailure::InvalidHttpMethod(name)),
                }
            } else {
                Err(ParseFailure::MalformedStartLine(malformed_message(parts.len())))
            }
        },
    }
}

/// Reads the start line: method, target and version.
pub fn read_start_line(reader: &mut ByteReader) -> (r: Result<
    (HttpMethod, String, String),
    RequestParseError,
>)
    ensures
        final(reader)@ == after_line(old(reader)@),
        match r {
            Ok((m, p, v)) => start_line(old(reader)@) == Ok::<
                (HttpMethod, Seq<char>, Seq<char>),
                ParseFailure,
            >((m, p@, v@)),
            Err(e) => start_line(old(reader)@) == Err::<
                (HttpMethod, Seq<char>, Seq<char>),
                ParseFailure,
            >(e@),
        },
{
    let line = match reader.read_line() {
        Ok(line) => line,
        Err(e) => return Err(RequestParseError::Read(e)),
    };
    let chars = chars_of(line.as_str());
    let trimmed = trim_end_chars(&chars);
    let parts = split_chars(&trimmed, &chars_of(" "));
    if parts.len() == 3 {
        assert(views(parts@)[0] == parts@[0]@);
        assert(views(parts@)[1] == parts@[1]@);
        assert(views(parts@)[2] == parts@[2]@);
        let name = string_of(&parts[0]);
        match HttpMethod::from_str(name.as_str()) {
            Ok(method) => {
                let path = string_of(&parts[1]);
                let version = string_of(&parts[2]);
                Ok((method, path, version))
            },
            Err(e) => Err(RequestParseError::InvalidHttpMethod(e)),
        }
    } else {
        let mut msg = "Start line must have exactly three parts, but received ".to_owned();
        push_decimal(&mut msg, parts.len());
        push_all(&mut msg, &chars_of("."));
        Err(RequestParseError::MalformedStartLine(msg))
    }
}

// ---------------------------------------------------------------------------
// Headers
// ---------------------------------------------------------------------------

/// The header table once the (trimmed) header line `line` is read: a line
/// `key: value` sets `key`; any other line is skipped.
pub open spec fn header_step(acc: Seq<(Seq<char>, ValueView)>, line: Seq<char>) -> Seq<(Seq<char>, ValueView)> {
    match split_once(line, ": "@) {
        Some((k, v)) => insert_pair(acc, k, comma_list_value(v)),
        None => acc,
    }
}

/// The headers at the front of `rem`, added to `acc`, up to the first line
/// that is empty once trimmed (or the end of the input); and the bytes left.
pub open spec fn headers_from(rem: Seq<u8>, acc: Seq<(Seq<char>, ValueView)>) -> (Result<
    Seq<(Seq<char>, ValueView)>,
    ParseFailure,
>, Seq<u8>)
    decreases rem.len(),
{
    match line_text(rem) {
        None => (Err(ParseFailure::Read(ReadError::InvalidData)), after_line(rem)),
        Some(t) => {
            if trim(t).len() == 0 {
                (Ok(acc), after_line(rem))
            } else if rem.len() == 0 {
                (Ok(acc), rem)
            } else {
                proof {
                    lemma_line_len_bound(rem);
                }
                headers_from(after_line(rem), header_step(acc, trim(t)))
            }
        },
    }
}

/// Reads the headers up to the first blank line.
pub fn read_headers(reader: &mut ByteReader) -> (r: Result<Table<HeaderValue>, RequestParseError>)
    ensures
        final(reader)@ == headers_from(old(reader)@, seq![]).1,
        match r {
            Ok(t) => headers_from(old(reader)@, seq![]).0 == Ok::<
                Seq<(Seq<char>, ValueView)>,
                ParseFailure,
            >(t@),
            Err(e) => headers_from(old(reader)@, seq![]).0 == Err::<
                Seq<(Seq<char>, ValueView)>,
                ParseFailure,
            >(e@),
        },
{
    let ghost start = reader@;
    let mut headers: Table<HeaderValue> = Table::new();
    let sep = chars_of(": ");
    loop
        invariant
            sep@ == ": "@,
            start == old(reader)@,
            headers_from(reader@, headers@) == headers_from(start, seq![]),
        decreases reader@.len(),
    {
        let ghost before = reader@;
        let line = match reader.read_line() {
            Ok(line) => line,
            Err(e) => {
                assert(line_text(before) is None);
                assert(headers_from(before, headers@) == (
                    Err::<Seq<(Seq<char>, ValueView)>, ParseFailure>(
                        ParseFailure::Read(ReadError::InvalidData),
                    ),
                    after_line(before),
                ));
                return Err(RequestParseError::Read(e));
            },
        };
        let chars = chars_of(line.as_str());
        let trimmed = trim_chars(&chars);
        if trimmed.len() == 0 {
            return Ok(headers);
        }
        proof {
            lemma_line_len_bound(before);
            if before.len() == 0 {
                assert(before.take(0) =~= Seq::<u8>::empty());
                assert(decode_utf8(Seq::<u8>::empty()) =~= Seq::<char>::empty());
            }
        }
        match split_once_chars(&trimmed, &sep) {
            Some((k, v)) => {
                let value = header_value_of(&v);
                headers.insert(string_of(&k), value);
            },
            None => {},
        }
    }
}

// ---------------------------------------------------------------------------
// Query string
// ---------------------------------------------------------------------------

/// The query table once the item `item` is read, or `None` where the key is
/// already present with the other kind of value, an input that
/// [parse_query_string] does not accept and [Request::parse_checked]
/// answers with `None`. `key[]=v` and `key%5B%5D=v`
/// append `v` to the list under `key`; `key=v` sets `key` to `v`; an item
/// without `=` is skipped.
pub open spec fn query_step(acc: Seq<(Seq<char>, ValueView)>, item: Seq<char>) -> Option<Seq<(Seq<char>, ValueView)>> {
    match split_once(item, "="@) {
        None => Some(acc),
        Some((key, val)) => {
            if ends_with(key, "[]"@) || ends_with(key, "%5B%5D"@) {
                let k = match strip_suffix(key, "[]"@) {
                    Some(k) => k,
                    None => match strip_suffix(key, "%5B%5D"@) {
                        Some(k) => k,
                        None => key,
                    },
                };
                match lookup(acc, k) {
                    Some(ValueView::Many(vs)) => Some(insert_pair(acc, k, ValueView::Many(vs.push(val)))),
                    Some(ValueView::Single(_)) => None,
                    None => Some(insert_pair(acc, k, ValueView::Many(seq![val]))),
                }
            } else {
                match lookup(acc, key) {
                    Some(ValueView::Single(_)) => Some(insert_pair(acc, key, ValueView::Single(val))),
                    Some(ValueView::Many(_)) => None,
                    None => Some(insert_pair(acc, key, ValueView::Single(val))),
                }
            }
        },
    }
}

/// The query table once all of `items` are read, from `acc`.
pub open spec fn query_fold(items: Seq<Seq<char>>, acc: Seq<(Seq<char>, ValueView)>) -> Option<Seq<(Seq<char>, ValueView)>>
    decreases items.len(),
{
    if items.len() == 0 {
        Some(acc)
    } else {
        match query_step(acc, items[0]) {
            Some(next) => query_fold(items.drop_first(), next),
            None => None,
        }
    }
}

/// The query table of a query string: its items between `&`, read in order;
/// `None` where a key is used both with and without `[]`.
pub open spec fn query_pairs(qs: Seq<char>) -> Option<Seq<(Seq<char>, ValueView)>> {
    if qs.len() == 0 {
        Some(seq![])
    } else {
        query_fold(split(qs, "&"@), seq![])
    }
}

/// A copy of a list of strings.
fn copy_strings(v: &Vec<String>) -> (r: Vec<String>)
    ensures
        string_views(r@) == string_views(v@),
{
    let mut r: Vec<String> = Vec::new();
    let mut i: usize = 0;
    while i < v.len()
        invariant
            i <= v@.len(),
            string_views(r@) == string_views(v@.take(i as int)),
        decreases v.len() - i,
    {
        let s = v[i].clone();
        proof {
            assert(v@.take(i + 1) == v@.take(i as int).push(v@[i as int]));
            assert(string_views(r@.push(s)) == string_views(r@).push(s@));
            assert(string_views(v@.take(i as int).push(v@[i as int])) == string_views(
                v@.take(i as int),
            ).push(v@[i as int]@));
        }
        r.push(s);
        i = i + 1;
    }
    assert(v@.take(v@.len() as int) == v@);
    r
}

/// Reads one query item into `table`; `false`, with `table` unchanged,
/// where the key is already present with the other kind of value.
fn query_item(table: &mut Table<QueryValue>, item: &Vec<char>) -> (ok: bool)
    ensures
        ok == (query_step(old(table)@, item@) is Some),
        ok ==> final(table)@ == query_step(old(table)@, item@)->0,
        !ok ==> final(table)@ == old(table)@,
{
    match split_once_chars(item, &chars_of("=")) {
        None => true,
        Some((key, val)) => {
            let value = string_of(&val);
            let brackets = chars_of("[]");
            let encoded = chars_of("%5B%5D");
            let ends_brackets = ends_with_chars(&key, &brackets);
            let ends_encoded = ends_with_chars(&key, &encoded);
            proof {
                reveal_strlit("[]");
                reveal_strlit("%5B%5D");
            }
            if ends_brackets || ends_encoded {
                let k = if ends_brackets {
                    slice_chars(&key, 0, key.len() - 2)
                } else {
                    slice_chars(&key, 0, key.len() - 6)
                };
                let key_string = string_of(&k);
                match table.position(key_string.as_str()) {
                    Some(i) => {
                        proof {
                            lemma_key_index(old(table)@, k@);
                        }
                        match table.value_at(i) {
                            QueryValue::Many(vs) => {
                                let mut list = copy_strings(vs);
                                let ghost copied = list@;
                                list.push(value);
                                assert(list@ == copied.push(value));
                                assert(string_views(list@) =~= string_views(copied).push(val@));
                                table.set_value(i, QueryValue::Many(list));
                                true
                            },
                            QueryValue::Single(_) => false,
                        }
                    },
                    None => {
                        let list = vec![value];
                        assert(string_views(list@) =~= seq![val@]);
                        table.insert(key_string, QueryValue::Many(list));
                        true
                    },
                }
            } else {
                let key_string = string_of(&key);
                match table.position(key_string.as_str()) {
                    Some(i) => {
                        proof {
                            lemma_key_index(old(table)@, key@);
                        }
                        match table.value_at(i) {
                            QueryValue::Single(_) => {
                                table.set_value(i, QueryValue::Single(value));
                                true
                            },
                            QueryValue::Many(_) => false,
                        }
                    },
                    None => {
                        table.insert(key_string, QueryValue::Single(value));
                        true
                    },
                }
            }
        },
    }
}

/// The query table of a query string, or `None` where a key is used both
/// with and without `[]`.
fn query_table(qs: &str) -> (r: Option<Table<QueryValue>>)
    ensures
        match r {
            Some(t) => query_pairs(qs@) == Some(t@),
            None => query_pairs(qs@) is None,
        },
{
    let mut table: Table<QueryValue> = Table::new();
    let chars = chars_of(qs);
    if chars.len() == 0 {
        return Some(table);
    }
    let items = split_chars(&chars, &chars_of("&"));
    let ghost all = views(items@);
    let mut i: usize = 0;
    assert(all.skip(0) == all);
    while i < items.len()
        invariant
            i <= items@.len(),
            all == views(items@),
            all == split(qs@, "&"@),
            qs@.len() > 0,
            query_fold(all.skip(i as int), table@) == query_fold(all, seq![]),
        decreases items.len() - i,
    {
        let ghost before = table@;
        assert(all.skip(i as int)[0] == items@[i as int]@);
        assert(all.skip(i as int).drop_first() == all.skip(i + 1));
        if !query_item(&mut table, &items[i]) {
            assert(query_fold(all.skip(i as int), before) is None);
            assert(query_pairs(qs@) == query_fold(all, seq![]));
            return None;
        }
        i = i + 1;
    }
    assert(all.skip(i as int).len() == 0);
    Some(table)
}

/// The query table of a query string: `key=v` sets `key` to `v`,
/// `key[]=v` and `key%5B%5D=v` append `v` to the list under `key`.
pub fn parse_query_string(query_string: &str) -> (r: Table<QueryValue>)
    requires
        query_pairs(query_string@) is Some,
    ensures
        query_pairs(query_string@) == Some(r@),
{
    match query_table(query_string) {
        Some(t) => t,
        None => vstd::pervasive::unreached(),
    }
}

// ---------------------------------------------------------------------------
// Body
// ---------------------------------------------------------------------------

/// The text of an optional string.
pub open spec fn text_of(o: Option<String>) -> Option<Seq<char>> {
    match o {
        Some(s) => Some(s@),
        None => None,
    }
}

/// A body of `n` bytes at the front of `rem`: none where `n` is zero, an
/// `UnexpectedEof` read error where fewer bytes are left (all of them
/// consumed), an encoding error where the bytes are not UTF-8.
pub open spec fn body_with_length(rem: Seq<u8>, n: nat) -> (Result<Option<Seq<char>>, ParseFailure>, Seq<u8>) {
    if n == 0 {
        (Ok(None), rem)
    } else if n > rem.len() {
        (Err(ParseFailure::Read(ReadError::UnexpectedEof)), seq![])
    } else {
        let bytes = rem.take(n as int);
        (
            if valid_utf8(bytes) {
                Ok(Some(decode_utf8(bytes)))
            } else {
                Err(ParseFailure::InvalidBodyEncoding)
            },
            rem.skip(n as int),
        )
    }
}

/// Reads a body of `length` bytes.
pub fn read_body_with_content_length(reader: &mut ByteReader, length: usize) -> (r: Result<
    Option<String>,
    RequestParseError,
>)
    ensures
        final(reader)@ == body_with_length(old(reader)@, length as nat).1,
        match r {
            Ok(b) => body_with_length(old(reader)@, length as nat).0 == Ok::<
                Option<Seq<char>>,
                ParseFailure,
            >(text_of(b)),
            Err(e) => body_with_length(old(reader)@, length as nat).0 == Err::<
                Option<Seq<char>>,
                ParseFailure,
            >(e@),
        },
{
    if length == 0 {
        return Ok(None);
    }
    match reader.read_exact(length) {
        Err(e) => {
            assert(reader@ =~= Seq::<u8>::empty());
            Err(RequestParseError::Read(e))
        },
        Ok(buf) => match utf8_string(buf) {
            Ok(body) => Ok(Some(body)),
            Err(e) => Err(RequestParseError::InvalidBodyEncoding(e)),
        },
    }
}

/// The body of a request with method `m` and headers `hs` at the front of
/// `rem`: none for a method that does not allow one; otherwise refused where
/// `Transfer-Encoding` is set, read with the length that `Content-Length`
/// gives (which must be one number) and accepted where `Content-Type` is
/// absent or `text/plain`.
pub open spec fn body_of(rem: Seq<u8>, m: HttpMethod, hs: Seq<(Seq<char>, ValueView)>) -> (Result<Option<Seq<char>>, ParseFailure>, Seq<u8>) {
    if !m.body_allowed() {
        (Ok(None), rem)
    } else {
        match lookup(hs, "Transfer-Encoding"@) {
            Some(v) => (Err(ParseFailure::UnsupportedTransferEncoding(value_text(v))), rem),
            None => match lookup(hs, "Content-Length"@) {
                None => (Err(ParseFailure::LengthRequired), rem),
                Some(ValueView::Many(_)) => (Err(ParseFailure::InvalidHeaderValue), rem),
                Some(ValueView::Single(l)) => match usize_value(l) {
                    None => (Err(ParseFailure::InvalidSize), rem),
                    Some(n) => {
                        let (b, rest) = body_with_length(rem, n as nat);
                        (
                            match b {
                                Ok(Some(text)) => match lookup(hs, "Content-Type"@) {
                                    Some(ct) => if value_text(ct) == "text/plain"@ {
                                        Ok(Some(text))
                                    } else {
                                        Err(ParseFailure::UnsupportedContentType)
                                    },
                                    None => Ok(Some(text)),
                                },
                                other => other,
                            },
                            rest,
                        )
                    },
                },
            },
        }
    }
}

/// Reads the body of a request with the given method and headers.
pub fn get_body(reader: &mut ByteReader, method: &HttpMethod, headers: &Table<HeaderValue>) -> (r: Result<
    Option<String>,
    RequestParseError,
>)
    ensures
        final(reader)@ == body_of(old(reader)@, *method, headers@).1,
        match r {
            Ok(b) => body_of(old(reader)@, *method, headers@).0 == Ok::<
                Option<Seq<char>>,
                ParseFailure,
            >(text_of(b)),
            Err(e) => body_of(old(reader)@, *method, headers@).0 == Err::<
                Option<Seq<char>>,
                ParseFailure,
            >(e@),
        },
{
    if !method.allows_body() {
        return Ok(None);
    }
    if let Some(value) = headers.get("Transfer-Encoding") {
        return Err(RequestParseError::UnsupportedTransferEncoding(value.to_string()));
    }
    let length_value = match headers.get("Content-Length") {
        Some(v) => v,
        None => return Err(RequestParseError::LengthRequired),
    };
    match length_value {
        HeaderValue::Single(l) => {
            let length = match parse_usize(l.as_str()) {
                Ok(n) => n,
                Err(e) => return Err(RequestParseError::InvalidSize(e)),
            };
            match read_body_with_content_length(reader, length) {
                Ok(Some(body)) => match headers.get("Content-Type") {
                    Some(content_type) => {
                        let text = content_type.to_string();
                        if chars_eq(&chars_of(text.as_str()), &chars_of("text/plain")) {
                            Ok(Some(body))
                        } else {
                            Err(RequestParseError::UnsupportedContentType)
                        }
                    },
                    None => Ok(Some(body)),
                },
                Ok(None) => Ok(None),
                Err(e) => Err(e),
            }
        },
        HeaderValue::Many(_) => Err(RequestParseError::InvalidHeaderValue),
    }
}

// ---------------------------------------------------------------------------
// Request
// ---------------------------------------------------------------------------

/// An HTTP request.
#[derive(Debug)]
pub struct Request {
    pub method: HttpMethod,
    pub path: String,
    pub version: String,
    pub query: Table<QueryValue>,
    pub headers: Table<HeaderValue>,
    pub body: Option<String>,
}

/// What a [Request] holds.
pub struct RequestView {
    pub method: HttpMethod,
    pub path: Seq<char>,
    pub version: Seq<char>,
    pub query: Seq<(Seq<char>, ValueView)>,
    pub headers: Seq<(Seq<char>, ValueView)>,
    pub body: Option<Seq<char>>,
}

impl View for Request {
    type V = RequestView;

    open spec fn view(&self) -> RequestView {
        RequestView {
            method: self.method,
            path: self.path@,
            version: self.version@,
            query: self.query@,
            headers: self.headers@,
            body: text_of(self.body),
        }
    }
}

/// The path and query string of a request target, split at the first `?`.
pub open spec fn split_target(full: Seq<char>) -> (Seq<char>, Seq<char>) {
    match split_once(full, "?"@) {
        Some((path, qs)) => (path, qs),
        None => (full, seq![]),
    }
}

/// The request at the front of `rem`, and the bytes left: `None` where the
/// query string uses a key both with and without `[]`, which the parser
/// does not handle.
pub open spec fn request_of(rem: Seq<u8>) -> (Option<Result<RequestView, ParseFailure>>, Seq<u8>) {
    match start_line(rem) {
        Err(e) => (Some(Err(e)), after_line(rem)),
        Ok((m, full, version)) => {
            let (path, qs) = split_target(full);
            let (hs, rest) = headers_from(after_line(rem), seq![]);
            match hs {
                Err(e) => (Some(Err(e)), rest),
                Ok(headers) => match query_pairs(qs) {
                    None => (None, rest),
                    Some(query) => {
                        let (b, last) = body_of(rest, m, headers);
                        (
                            Some(
                                match b {
                                    Err(e) => Err(e),
                                    Ok(body) => Ok(
                                        RequestView { method: m, path, version, query, headers, body },
                                    ),
                                },
                            ),
                            last,
                        )
                    },
                },
            }
        },
    }
}

/// The view of a parse outcome.
pub open spec fn outcome(r: Result<Request, RequestParseError>) -> Result<RequestView, ParseFailure> {
    match r {
        Ok(req) => Ok(req@),
        Err(e) => Err(e@),
    }
}

impl Request {
    /// Parses an HTTP request, or gives `None` where its query string uses a
    /// key both with and without `[]`.
    pub fn parse_checked(reader: &mut ByteReader) -> (r: Option<Result<Request, RequestParseError>>)
        ensures
            final(reader)@ == request_of(old(reader)@).1,
            match r {
                Some(res) => request_of(old(reader)@).0 == Some(outcome(res)),
                None => request_of(old(reader)@).0 is None,
            },
    {
        let ghost rem = reader@;
        let (method, full_path, version) = match read_start_line(reader) {
            Ok(parts) => parts,
            Err(e) => return Some(Err(e)),
        };
        let full = chars_of(full_path.as_str());
        let (path, query_string) = match split_once_chars(&full, &chars_of("?")) {
            Some((p, q)) => (string_of(&p), string_of(&q)),
            None => (full_path, String::new()),
        };
        let headers = match read_headers(reader) {
            Ok(h) => h,
            Err(e) => return Some(Err(e)),
        };
        let query = match query_table(query_string.as_str()) {
            Some(q) => q,
            None => return None,
        };
        let body = match get_body(reader, &method, &headers) {
            Ok(b) => b,
            Err(e) => return Some(Err(e)),
        };
        Some(Ok(Request { method, path, version, headers, query, body }))
    }

    /// Parses an HTTP request.
    ///
    /// For requests that have a body, one of two headers must appear:
    /// `Transfer-Encoding` (which takes priority and is refused), or
    /// `Content-Length`, which must be a valid integer.
    pub fn parse(reader: &mut ByteReader) -> (r: Result<Request, RequestParseError>)
        requires
            request_of(old(reader)@).0 is Some,
        ensures
            final(reader)@ == request_of(old(reader)@).1,
            request_of(old(reader)@).0 == Some(outcome(r)),
    {
        match Request::parse_checked(reader) {
            Some(r) => r,
            None => vstd::pervasive::unreached(),
        }
    }
}

// ---------------------------------------------------------------------------
// Laws
// ---------------------------------------------------------------------------

/// A request whose method does not allow a body is given none.
pub proof fn lemma_no_body_for_bodiless_method(rem: Seq<u8>)
    ensures
        request_of(rem).0 matches Some(Ok(r)) ==> (!r.method.body_allowed() ==> r.body is None),
{
}

/// `Transfer-Encoding` takes priority: a request whose method allows a body
/// and whose headers set it is refused with that header's value, whatever
/// the other headers say.
pub proof fn lemma_transfer_encoding_refused(rem: Seq<u8>)
    requires
        start_line(rem) matches Ok((m, full, v)) && m.body_allowed() && query_pairs(
            split_target(full).1,
        ) is Some,
        headers_from(after_line(rem), seq![]).0 matches Ok(hs) && lookup(hs, "Transfer-Encoding"@) is Some,
    ensures
        request_of(rem).0 matches Some(Err(ParseFailure::UnsupportedTransferEncoding(t)))
            && t == value_text(lookup(headers_from(after_line(rem), seq![]).0->Ok_0, "Transfer-Encoding"@)->0),
{
}

/// A `Content-Length` of `0` gives no body and reads nothing, whatever the
/// content type.
pub proof fn lemma_zero_length_no_body(rem: Seq<u8>, m: HttpMethod, hs: Seq<(Seq<char>, ValueView)>)
    requires
        m.body_allowed(),
        lookup(hs, "Transfer-Encoding"@) is None,
        lookup(hs, "Content-Length"@) == Some(ValueView::Single("0"@)),
    ensures
        body_of(rem, m, hs) == (Ok::<Option<Seq<char>>, ParseFailure>(None), rem),
{
    reveal_strlit("0");
    let d = crate::text::unsigned_digits("0"@);
    assert(d == "0"@);
    assert(d.drop_last() =~= Seq::<char>::empty());
    assert(d.last() == '0');
    assert(crate::text::digits_value(d.drop_last()) == 0);
    assert(crate::text::digits_value(d) == 0);
}

/// An item `k=val` whose key holds no `=` and does not end in `[]` or
/// `%5B%5D` sets `k` to the single value `val`, whatever `val` is (the
/// empty text included), where `k` is absent or holds a single value.
pub proof fn lemma_query_item_sets_value(acc: Seq<(Seq<char>, ValueView)>, k: Seq<char>, val: Seq<char>)
    requires
        forall|i: int| 0 <= i < k.len() ==> k[i] != '=',
        !ends_with(k, "[]"@),
        !ends_with(k, "%5B%5D"@),
        lookup(acc, k) matches Some(ValueView::Single(_)) || lookup(acc, k) is None,
    ensures
        query_step(acc, k + "="@ + val) == Some(insert_pair(acc, k, ValueView::Single(val))),
{
    reveal_strlit("=");
    let item = k + "="@ + val;
    assert(item.subrange(k.len() as int, k.len() + 1int) =~= "="@);
    assert forall|j: int| 0 <= j < k.len() implies #[trigger] item.subrange(j, j + 1) != "="@ by {
        assert(item.subrange(j, j + 1)[0] == k[j]);
    }
    lemma_find_at(item, "="@, k.len() as int);
    assert(item.take(k.len() as int) =~= k);
    assert(item.skip(k.len() + 1int) =~= val);
}

/// A query string of one item `k=val` (no `&`, a key without `=` that does
/// not end in `[]` or `%5B%5D`) gives the table holding `val` under `k`,
/// whatever `val` is, the empty text included.
pub proof fn lemma_single_item_query(k: Seq<char>, val: Seq<char>)
    requires
        forall|i: int| 0 <= i < k.len() ==> k[i] != '=' && k[i] != '&',
        forall|i: int| 0 <= i < val.len() ==> val[i] != '&',
        !ends_with(k, "[]"@),
        !ends_with(k, "%5B%5D"@),
    ensures
        query_pairs(k + "="@ + val) == Some(seq![(k, ValueView::Single(val))]),
{
    reveal_strlit("=");
    reveal_strlit("&");
    let qs = k + "="@ + val;
    assert(qs.len() > 0);
    assert forall|j: int| 0 <= j && j + 1 <= qs.len() implies #[trigger] qs.subrange(j, j + 1) != "&"@ by {
        assert(qs.subrange(j, j + 1)[0] == qs[j]);
        if j < k.len() {
            assert(qs[j] == k[j]);
        } else if j > k.len() {
            assert(qs[j] == val[j - k.len() - 1]);
        }
    }
    lemma_split_none(qs, "&"@);
    let empty = Seq::<(Seq<char>, ValueView)>::empty();
    lemma_query_item_sets_value(empty, k, val);
    let items = split(qs, "&"@);
    assert(items.drop_first() =~= Seq::<Seq<char>>::empty());
    assert(insert_pair(empty, k, ValueView::Single(val)) =~= seq![(k, ValueView::Single(val))]);
    assert(query_fold(items, empty) == query_fold(items.drop_first(), insert_pair(empty, k, ValueView::Single(val))));
}

/// POST, PUT, PATCH and QUERY read their body: with no
/// `Transfer-Encoding`, no `Content-Type` or `text/plain`, and a
/// `Content-Length` of `n`, the body is the first `n` bytes decoded, and the
/// rest is left.
pub proof fn lemma_body_methods_read_body(
    rem: Seq<u8>,
    m: HttpMethod,
    hs: Seq<(Seq<char>, ValueView)>,
    n: usize,
)
    requires
        m == HttpMethod::POST || m == HttpMethod::PUT || m == HttpMethod::PATCH || m
            == HttpMethod::QUERY,
        lookup(hs, "Transfer-Encoding"@) is None,
        lookup(hs, "Content-Type"@) is None || lookup(hs, "Content-Type"@) == Some(
            ValueView::Single("text/plain"@),
        ),
        lookup(hs, "Content-Length"@) == Some(ValueView::Single(decimal(n as nat))),
        0 < n <= rem.len(),
        valid_utf8(rem.take(n as int)),
    ensures
        body_of(rem, m, hs) == (
            Ok::<Option<Seq<char>>, ParseFailure>(Some(decode_utf8(rem.take(n as int)))),
            rem.skip(n as int),
        ),
{
    lemma_decimal_round_trip(n);
}

/// Every other method reads no body and leaves the input as it is.
pub proof fn lemma_other_methods_read_nothing(rem: Seq<u8>, m: HttpMethod, hs: Seq<(Seq<char>, ValueView)>)
    requires
        !(m == HttpMethod::POST || m == HttpMethod::PUT || m == HttpMethod::PATCH || m
            == HttpMethod::QUERY),
    ensures
        body_of(rem, m, hs) == (Ok::<Option<Seq<char>>, ParseFailure>(None), rem),
{
}

/// A header block of one line `k: v` keeps the whole of `v` (read as a
/// `, `-separated list) under `k`: the key is cut at the first `: ` only.
pub proof fn lemma_header_line_keeps_whole_value(k: Seq<char>, v: Seq<char>, rest: Seq<u8>)
    requires
        is_ascii_chars(k),
        is_ascii_chars(v),
        k.len() > 0,
        v.len() > 0,
        !is_white(k[0]),
        !is_white(v.last()),
        forall|i: int| 0 <= i < k.len() ==> k[i] != ':' && k[i] != '\n',
        forall|i: int| 0 <= i < v.len() ==> v[i] != '\n',
    ensures
        headers_from(encode_utf8(k + ": "@ + v + "\r\n"@) + encode_utf8("\r\n"@) + rest, seq![]) == (
            Ok::<Seq<(Seq<char>, ValueView)>, ParseFailure>(seq![(k, comma_list_value(v))]),
            rest,
        ),
{
    reveal_strlit(": ");
    reveal_strlit("\r\n");
    let sep = ": "@;
    let crlf = "\r\n"@;
    let t = k + sep + v + crlf;
    let n: int = k.len() + 2int + v.len();
    assert(t.len() == n + 2);
    assert forall|i: int| 0 <= i < t.len() implies '\0' <= #[trigger] t[i] <= '\u{7f}' by {
        if i < k.len() {
            assert(t[i] == k[i]);
        } else if k.len() + 2 <= i < n {
            assert(t[i] == v[i - k.len() - 2]);
        }
    }
    assert forall|i: int| 0 <= i < t.len() - 1 implies t[i] != '\n' by {
        if i < k.len() {
            assert(t[i] == k[i]);
        } else if k.len() + 2 <= i < n {
            assert(t[i] == v[i - k.len() - 2]);
        }
    }
    let second = encode_utf8(crlf) + rest;
    assert(encode_utf8(t) + encode_utf8(crlf) + rest =~= encode_utf8(t) + second);
    lemma_ascii_line(t, second);
    assert(t[0] == k[0]);
    assert(t[n - 1] == v.last());
    lemma_trim_of(t, 0, n);
    let line = t.subrange(0, n);
    assert(line =~= k + sep + v);
    assert(line.subrange(k.len() as int, k.len() + 2int) =~= sep);
    assert forall|j: int| 0 <= j < k.len() implies #[trigger] line.subrange(j, j + 2) != sep by {
        assert(line.subrange(j, j + 2)[0] == k[j]);
    }
    lemma_find_at(line, sep, k.len() as int);
    assert(line.take(k.len() as int) =~= k);
    assert(line.skip(k.len() + 2int) =~= v);
    lemma_line_len_bound(encode_utf8(t) + second);
    assert(crlf.last() == '\n' && crlf[0] == '\r');
    lemma_ascii_line(crlf, rest);
    lemma_trim_white(crlf);
    let acc = insert_pair(Seq::<(Seq<char>, ValueView)>::empty(), k, comma_list_value(v));
    assert(acc =~= seq![(k, comma_list_value(v))]);
    let rem = encode_utf8(t) + second;
    assert(trim(t) == line);
    assert(split_once(trim(t), sep) == Some((k, v)));
    assert(header_step(Seq::<(Seq<char>, ValueView)>::empty(), trim(t)) == acc);
    assert(headers_from(rem, seq![]) == headers_from(second, acc));
    assert(headers_from(second, acc) == (
        Ok::<Seq<(Seq<char>, ValueView)>, ParseFailure>(acc),
        rest,
    ));
}

} // verus!
