use prime_server::prime::http_method::{HttpMethod, InvalidHttpMethodError};
use prime_server::prime::request::{
    get_body, parse_query_string, read_headers, read_start_line, HeaderValue, QueryValue, Request,
    RequestParseError,
};
use prime_server::reader::{ByteReader, ReadError};
use prime_server::table::Table;
use std::collections::HashMap;

fn headers_map(t: Table<HeaderValue>) -> HashMap<String, HeaderValue> {
    t.into_entries().into_iter().collect()
}

fn query_map(t: Table<QueryValue>) -> HashMap<String, QueryValue> {
    t.into_entries().into_iter().collect()
}

fn parse(data: &[u8]) -> Result<Request, RequestParseError> {
    let mut reader = ByteReader::new(data);
    Request::parse_checked(&mut reader).expect("no conflicting query keys")
}

#[test]
fn parse_documented_example() {
    let data = b"POST / HTTP/1.1\r\n\
                 Content-Type: text/plain\r\n\
                 Content-Length: 11\r\n\
                 \r\n\
                 Hello World\r\n\
                 \r\n";
    let mut reader = ByteReader::new(&data[..]);
    let request = Request::parse(&mut reader).unwrap();

    assert_eq!(request.method, HttpMethod::POST);
    assert_eq!(request.path, String::from("/"));
    assert_eq!(request.version, String::from("HTTP/1.1"));
    assert_eq!(
        headers_map(request.headers),
        HashMap::from([
            (String::from("Content-Type"), HeaderValue::Single(String::from("text/plain"))),
            (String::from("Content-Length"), HeaderValue::Single(String::from("11"))),
        ])
    );
    assert_eq!(request.query.len(), 0);
    assert_eq!(request.body, Some(String::from("Hello World")));
}

#[test]
fn parse_splits_path_and_query() {
    let request = parse(b"GET /search?a=1&b[]=x&b%5B%5D=y&c&a=2 HTTP/1.1\r\n\r\n").unwrap();
    assert_eq!(request.path, "/search");
    assert_eq!(
        query_map(request.query),
        HashMap::from([
            (String::from("a"), QueryValue::Single(String::from("2"))),
            (
                String::from("b"),
                QueryValue::Many(vec![String::from("x"), String::from("y")])
            ),
        ])
    );
    assert_eq!(request.body, None);
}

#[test]
fn parse_query_string_keeps_first_position() {
    let table = parse_query_string("x=1&y=2&x=3");
    let entries = table.into_entries();
    assert_eq!(
        entries,
        vec![
            (String::from("x"), QueryValue::Single(String::from("3"))),
            (String::from("y"), QueryValue::Single(String::from("2"))),
        ]
    );
}

#[test]
fn parse_query_string_empty() {
    assert_eq!(parse_query_string("").len(), 0);
    assert_eq!(parse_query_string("novalue").len(), 0);
}

#[test]
fn parse_checked_refuses_mixed_query_keys() {
    let mut reader = ByteReader::new(b"GET /?a=1&a[]=2 HTTP/1.1\r\n\r\n");
    assert!(Request::parse_checked(&mut reader).is_none());
    let mut reader = ByteReader::new(b"GET /?a[]=1&a=2 HTTP/1.1\r\n\r\n");
    assert!(Request::parse_checked(&mut reader).is_none());
}

#[test]
fn get_ignores_body() {
    let request = parse(b"GET / HTTP/1.1\r\nContent-Length: 5\r\n\r\nhello").unwrap();
    assert_eq!(request.body, None);
}

#[test]
fn transfer_encoding_takes_priority() {
    match parse(b"POST / HTTP/1.1\r\nTransfer-Encoding: chunked, gzip\r\nContent-Length: 5\r\n\r\nhello") {
        Err(RequestParseError::UnsupportedTransferEncoding(v)) => assert_eq!(v, "chunked, gzip"),
        other => panic!("unexpected {:?}", other),
    }
}

#[test]
fn length_required() {
    assert!(matches!(
        parse(b"PUT / HTTP/1.1\r\n\r\nhello"),
        Err(RequestParseError::LengthRequired)
    ));
}

#[test]
fn invalid_size() {
    assert!(matches!(
        parse(b"POST / HTTP/1.1\r\nContent-Length: five\r\n\r\nhello"),
        Err(RequestParseError::InvalidSize(_))
    ));
    assert!(matches!(
        parse(b"POST / HTTP/1.1\r\nContent-Length: -1\r\n\r\nhello"),
        Err(RequestParseError::InvalidSize(_))
    ));
}

#[test]
fn content_length_with_plus_sign() {
    let request = parse(b"PATCH / HTTP/1.1\r\nContent-Length: +3\r\n\r\nabcdef").unwrap();
    assert_eq!(request.body, Some(String::from("abc")));
}

#[test]
fn several_lengths_are_invalid() {
    assert!(matches!(
        parse(b"POST / HTTP/1.1\r\nContent-Length: 12, 12\r\n\r\nhello"),
        Err(RequestParseError::InvalidHeaderValue)
    ));
}

#[test]
fn unsupported_content_type() {
    assert!(matches!(
        parse(b"POST / HTTP/1.1\r\nContent-Type: application/json\r\nContent-Length: 2\r\n\r\n{}"),
        Err(RequestParseError::UnsupportedContentType)
    ));
}

#[test]
fn zero_length_gives_no_body_whatever_the_type() {
    let request =
        parse(b"QUERY / HTTP/1.1\r\nContent-Type: application/json\r\nContent-Length: 0\r\n\r\n")
            .unwrap();
    assert_eq!(request.body, None);
}

#[test]
fn body_must_be_utf8() {
    assert!(matches!(
        parse(b"POST / HTTP/1.1\r\nContent-Length: 2\r\n\r\n\xff\xfe"),
        Err(RequestParseError::InvalidBodyEncoding(_))
    ));
}

#[test]
fn short_body_is_a_read_error() {
    assert!(matches!(
        parse(b"POST / HTTP/1.1\r\nContent-Length: 20\r\n\r\nshort"),
        Err(RequestParseError::Read(ReadError::UnexpectedEof))
    ));
}

#[test]
fn invalid_utf8_line_is_a_read_error() {
    let mut reader = ByteReader::new(b"GET /\xff HTTP/1.1\r\n\r\n");
    assert!(matches!(
        read_start_line(&mut reader),
        Err(RequestParseError::Read(ReadError::InvalidData))
    ));
}

#[test]
fn malformed_start_line_message() {
    let mut reader = ByteReader::new(b"HTTP/1.1 / random stuff here GET\r\n");
    match read_start_line(&mut reader) {
        Err(RequestParseError::MalformedStartLine(m)) => assert_eq!(
            m,
            "Start line must have exactly three parts, but received 6."
        ),
        other => panic!("unexpected {:?}", other),
    }
    let mut reader = ByteReader::new(b"");
    match read_start_line(&mut reader) {
        Err(RequestParseError::MalformedStartLine(m)) => assert_eq!(
            m,
            "Start line must have exactly three parts, but received 1."
        ),
        other => panic!("unexpected {:?}", other),
    }
}

#[test]
fn invalid_method_keeps_its_name() {
    let mut reader = ByteReader::new(b"FETCH / HTTP/1.1\r\n");
    match read_start_line(&mut reader) {
        Err(RequestParseError::InvalidHttpMethod(InvalidHttpMethodError(name))) => {
            assert_eq!(name, "FETCH")
        }
        other => panic!("unexpected {:?}", other),
    }
}

#[test]
fn start_line_then_headers_share_the_reader() {
    let mut reader = ByteReader::new(b"DELETE /item HTTP/1.0\r\nX: 1\r\n\r\nrest");
    assert_eq!(
        read_start_line(&mut reader).unwrap(),
        (HttpMethod::DELETE, String::from("/item"), String::from("HTTP/1.0"))
    );
    let headers = headers_map(read_headers(&mut reader).unwrap());
    assert_eq!(headers.get("X"), Some(&HeaderValue::Single(String::from("1"))));
    assert_eq!(reader.read_exact(4).unwrap(), b"rest".to_vec());
}

#[test]
fn later_header_replaces_earlier() {
    let mut reader = ByteReader::new(b"A: 1\r\nB: 2\r\nA: 3, 4\r\n\r\n");
    let entries = read_headers(&mut reader).unwrap().into_entries();
    assert_eq!(
        entries,
        vec![
            (
                String::from("A"),
                HeaderValue::Many(vec![String::from("3"), String::from("4")])
            ),
            (String::from("B"), HeaderValue::Single(String::from("2"))),
        ]
    );
}

#[test]
fn get_body_direct() {
    let mut headers = Table::new();
    headers.insert(String::from("Content-Length"), HeaderValue::Single(String::from("3")));
    let mut reader = ByteReader::new(b"abcdef");
    assert_eq!(
        get_body(&mut reader, &HttpMethod::PUT, &headers).unwrap(),
        Some(String::from("abc"))
    );
    assert_eq!(reader.read_exact(3).unwrap(), b"def".to_vec());
}

#[test]
fn header_value_round_trip() {
    let v: HeaderValue = "gzip, deflate, br".parse().unwrap();
    assert_eq!(
        v,
        HeaderValue::Many(vec![
            String::from("gzip"),
            String::from("deflate"),
            String::from("br")
        ])
    );
    assert_eq!(v.to_string(), "gzip, deflate, br");
    let one: HeaderValue = "text/plain,x".parse().unwrap();
    assert_eq!(one, HeaderValue::Single(String::from("text/plain,x")));
    assert_eq!(one.to_string(), "text/plain,x");
}
