use prime_server::middlewares::string::StringResponseBodyPayload as MiddlewarePayload;
use prime_server::prime::reply::create_response;
use prime_server::prime::request::{Request, RequestParseError};
use prime_server::prime::response::{Response, ResponseBodyPayload, StringResponseBodyPayload};
use prime_server::prime::status_code::StatusCode;
use prime_server::reader::{ByteReader, ReadError};

fn header(r: &Response<MiddlewarePayload>, key: &str) -> Option<String> {
    r.headers.get(key).cloned()
}

#[test]
fn set_header_overrides() {
    let mut response: Response<StringResponseBodyPayload> = Response::default();
    response.set_header("Content-Type", "text/plain");
    assert_eq!(response.headers.get("Content-Type"), Some(&String::from("text/plain")));
    response.set_header("Content-Type", "application/json");
    assert_eq!(response.headers.get("Content-Type"), Some(&String::from("application/json")));
    assert_eq!(response.headers.len(), 1);
}

#[test]
fn set_body_infers_content_type_only_when_absent() {
    let mut response: Response<StringResponseBodyPayload> = Response::default();
    assert_eq!(response.headers.get("Content-Type"), None);
    response.set_body(Some(Box::new(StringResponseBodyPayload::new("hi"))));
    assert_eq!(response.headers.get("Content-Type"), Some(&String::from("text/plain")));

    let mut response: Response<StringResponseBodyPayload> = Response::default();
    response.set_header("Content-Type", "text/html");
    response.set_body(Some(Box::new(StringResponseBodyPayload::new("<p>"))));
    assert_eq!(response.headers.get("Content-Type"), Some(&String::from("text/html")));

    let mut response: Response<StringResponseBodyPayload> = Response::default();
    response.set_body(None);
    assert_eq!(response.headers.len(), 0);
}

#[test]
fn default_response() {
    let response: Response<StringResponseBodyPayload> = Response::default();
    assert_eq!(response.version, "HTTP/1.1");
    assert_eq!(response.status, StatusCode::OK);
    assert!(response.body.is_none());
    assert_eq!(response.to_text(), "HTTP/1.1 200 OK\r\n\r\n");
}

#[test]
fn payloads() {
    let p = StringResponseBodyPayload::new("abc");
    assert_eq!(p.as_str(), "abc");
    assert_eq!(p.get_content_type(), "text/plain");
    assert_eq!(p.as_body().unwrap().as_str(), "abc");

    let m = MiddlewarePayload::new("héllo");
    assert_eq!(m.len(), 6);
    assert!(!m.is_empty());
    assert!(MiddlewarePayload::new("").is_empty());
    assert_eq!(m.as_body().unwrap().0, "héllo");
}

fn parse(data: &[u8]) -> Result<Request, RequestParseError> {
    Request::parse_checked(&mut ByteReader::new(data)).unwrap()
}

#[test]
fn create_response_for_each_outcome() {
    let ok = create_response(&parse(b"GET / HTTP/1.1\r\n\r\n"));
    assert_eq!(ok.status, StatusCode::OK);
    assert!(ok.body.is_none());

    let missing = create_response(&parse(b"POST / HTTP/1.1\r\n\r\n"));
    assert_eq!(missing.status, StatusCode::LengthRequired);
    assert_eq!(missing.body.as_ref().unwrap().0, "Request must have a Content-Length header.");
    assert_eq!(header(&missing, "Content-Type"), Some(String::from("text/plain")));
    assert_eq!(
        missing.to_text(),
        "HTTP/1.1 411 Length Required\r\nContent-Type: text/plain\r\n\r\nRequest must have a Content-Length header."
    );

    let json = create_response(&parse(
        b"POST / HTTP/1.1\r\nContent-Type: application/json\r\nContent-Length: 2\r\n\r\n{}",
    ));
    assert_eq!(json.status, StatusCode::NotImplemented);
    assert_eq!(
        json.body.as_ref().unwrap().0,
        "Only `Content-Type: text/plain` is supported for now."
    );

    let chunked = create_response(&parse(b"POST / HTTP/1.1\r\nTransfer-Encoding: chunked\r\n\r\n"));
    assert_eq!(chunked.status, StatusCode::NotImplemented);
    assert_eq!(
        chunked.body.as_ref().unwrap().0,
        "Header `Transfer-Encoding` is not yet supported."
    );

    let bad = create_response(&Err(RequestParseError::Read(ReadError::InvalidData)));
    assert_eq!(bad.status, StatusCode::BadRequest);
    assert!(bad.body.is_none());
    assert_eq!(bad.headers.len(), 0);
}

#[test]
fn status_codes() {
    assert_eq!(StatusCode::default(), StatusCode::OK);
    assert_eq!(StatusCode::NotImplemented.code(), 501);
    assert_eq!(StatusCode::BadRequest.reason(), "Bad Request");
}
