use prime_server::rapid::header::HeaderValue;
use prime_server::rapid::method::Method;
use prime_server::rapid::reply::reply;
use prime_server::rapid::request::{read_start_line, Request, RequestError};
use prime_server::rapid::version::Version;
use prime_server::reader::{ByteReader, ReadError};
use std::collections::HashMap;

fn parse(data: &[u8]) -> Result<Request, RequestError> {
    let mut reader = ByteReader::new(data);
    Request::from_reader(&mut reader)
}

#[test]
fn from_reader_documented_example() {
    let data = b"POST / HTTP/1.1\r\n\
                 Accept: text/plain, application/json\r\n\
                 Content-Type: text/plain\r\n\
                 Content-Length: 11\r\n\
                 \r\n\
                 Hello World\r\n\
                 \r\n";
    let request = parse(&data[..]).unwrap();

    assert_eq!(request.method, Method::POST);
    assert_eq!(request.path, String::from("/"));
    assert_eq!(request.version, Version::HTTP1_1);
    let headers: HashMap<String, HeaderValue> = request.headers.into_entries().into_iter().collect();
    assert_eq!(
        headers,
        HashMap::from([
            (
                String::from("Accept"),
                HeaderValue::Many(vec![
                    String::from("text/plain"),
                    String::from("application/json")
                ])
            ),
            (String::from("Content-Type"), HeaderValue::Single(String::from("text/plain"))),
            (String::from("Content-Length"), HeaderValue::Single(String::from("11"))),
        ])
    );
    assert_eq!(request.body, Some(String::from("Hello World")));
}

#[test]
fn start_line_words_split_on_any_white_space() {
    let mut reader = ByteReader::new(b"  PUT\t/a   HTTP/1.1 \r\n");
    assert_eq!(
        read_start_line(&mut reader).unwrap(),
        (Method::PUT, String::from("/a"), Version::HTTP1_1)
    );
}

#[test]
fn unknown_method_and_version() {
    assert!(matches!(parse(b"FETCH / HTTP/1.1\r\n\r\n"), Err(RequestError::InvalidMethod)));
    assert!(matches!(
        parse(b"GET / HTTP/2.0\r\n\r\n"),
        Err(RequestError::UnsupportedHttpVersion)
    ));
    assert!(matches!(parse(b""), Err(RequestError::UnsupportedHttpVersion)));
}

#[test]
fn missing_colon_is_invalid() {
    assert!(matches!(
        parse(b"GET / HTTP/1.1\r\nX-Rapid-Server\r\n\r\n"),
        Err(RequestError::InvalidHeaderValue)
    ));
}

#[test]
fn media_type_rules() {
    assert!(matches!(
        parse(b"POST / HTTP/1.1\r\nContent-Length: 2\r\n\r\nhi"),
        Err(RequestError::InvalidMediaType)
    ));
    assert!(matches!(
        parse(b"POST / HTTP/1.1\r\nContent-Type: text/plain\r\nTransfer-Encoding: chunked\r\n\r\nhi"),
        Err(RequestError::InvalidMediaType)
    ));
    assert!(matches!(
        parse(b"POST / HTTP/1.1\r\nContent-Type: text/plain, text/html\r\nContent-Length: 2\r\n\r\nhi"),
        Err(RequestError::InvalidMediaType)
    ));
}

#[test]
fn length_rules() {
    assert!(matches!(
        parse(b"POST / HTTP/1.1\r\nContent-Type: text/plain\r\n\r\nhi"),
        Err(RequestError::ContentLengthRequired)
    ));
    assert!(matches!(
        parse(b"POST / HTTP/1.1\r\nContent-Type: text/plain\r\nContent-Length: two\r\n\r\nhi"),
        Err(RequestError::InvalidBodyLength(_))
    ));
    assert!(matches!(
        parse(b"POST / HTTP/1.1\r\nContent-Type: text/plain\r\nContent-Length: 1, 2\r\n\r\nhi"),
        Err(RequestError::InvalidHeaderValue)
    ));
    assert!(matches!(
        parse(b"POST / HTTP/1.1\r\nContent-Type: text/plain\r\nContent-Length: 9\r\n\r\nhi"),
        Err(RequestError::Read(ReadError::UnexpectedEof))
    ));
    assert!(matches!(
        parse(b"POST / HTTP/1.1\r\nContent-Type: text/plain\r\nContent-Length: 1\r\n\r\n\xff"),
        Err(RequestError::InvalidBodyEncoding(_))
    ));
}

#[test]
fn bodiless_method_reads_no_body() {
    let request = parse(b"HEAD / HTTP/1.1\r\nContent-Length: 2\r\n\r\nhi").unwrap();
    assert_eq!(request.body, None);
}

#[test]
fn replies() {
    assert_eq!(reply(&parse(b"GET / HTTP/1.1\r\n\r\n")), "HTTP/1.1 204 No Content\r\n\r\n");
    assert_eq!(
        reply(&parse(b"GET / HTTP/2\r\n\r\n")),
        "HTTP/1.1 505 HTTP Version Not Supported\r\n\r\n"
    );
    assert_eq!(
        reply(&parse(b"BREW / HTTP/1.1\r\n\r\n")),
        "HTTP/1.1 405 Method Not Allowed\r\n\r\n"
    );
    assert_eq!(
        reply(&parse(b"GET / HTTP/1.1\r\nbad\r\n\r\n")),
        "HTTP/1.1 400 Bad Request\r\n\r\n"
    );
}

#[test]
fn rapid_method_allows_body() {
    assert!(Method::POST.allows_body());
    assert!(!Method::TRACE.allows_body());
}
