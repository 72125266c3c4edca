use prime_server::prime::http_method::{HttpMethod, InvalidHttpMethodError};
use prime_server::prime::request::{
    read_body_with_content_length, read_headers, read_start_line, HeaderValue, RequestParseError,
};
use prime_server::reader::ByteReader;
use prime_server::table::Table;
use std::collections::HashMap;

fn to_map(t: Table<HeaderValue>) -> HashMap<String, HeaderValue> {
    t.into_entries().into_iter().collect()
}

#[test]
fn request_test_read_start_line_valid() -> Result<(), RequestParseError> {
    let data = b"GET / HTTP/1.1";
    let mut reader = ByteReader::new(&data[..]);

    assert_eq!(
        read_start_line(&mut reader)?,
        (HttpMethod::GET, String::from("/"), String::from("HTTP/1.1"))
    );

    Ok(())
}

#[test]
fn test_read_start_line_invalid_method() {
    let data = b"TRY / HTTP/1.1";
    let mut reader = ByteReader::new(&data[..]);

    assert!(matches!(
        read_start_line(&mut reader),
        Err(RequestParseError::InvalidHttpMethod(InvalidHttpMethodError(_)))
    ));
}

#[test]
fn request_test_read_start_line_invalid_length() {
    let data = b"HTTP/1.1 / random stuff here GET";
    let mut reader = ByteReader::new(&data[..]);

    assert!(matches!(
        read_start_line(&mut reader),
        Err(RequestParseError::MalformedStartLine(_))
    ));
}

#[test]
fn request_test_read_headers_single_header_valid() -> Result<(), RequestParseError> {
    let data = b"Content-Type: text/plain\r\n\r\n";
    let mut reader = ByteReader::new(&data[..]);

    assert_eq!(
        to_map(read_headers(&mut reader)?),
        HashMap::from([(
            String::from("Content-Type"),
            HeaderValue::Single(String::from("text/plain"))
        )])
    );

    Ok(())
}

#[test]
fn request_test_read_headers_mutiple_headers_valid() -> Result<(), RequestParseError> {
    let data = b"Accept: application/json\r\n\
                                Content-Type: text/plain\r\n\
                                Content-Length: 11\r\n\
                                \r\n";
    let mut reader = ByteReader::new(&data[..]);

    assert_eq!(
        to_map(read_headers(&mut reader)?),
        HashMap::from([
            (
                String::from("Accept"),
                HeaderValue::Single(String::from("application/json"))
            ),
            (
                String::from("Content-Type"),
                HeaderValue::Single(String::from("text/plain"))
            ),
            (
                String::from("Content-Length"),
                HeaderValue::Single(String::from("11"))
            )
        ])
    );

    Ok(())
}

#[test]
fn test_read_headers_invalid_headers_skipped() -> Result<(), RequestParseError> {
    let data = b"Accept\r\n\
                                Content-Type:text/plain\r\n\
                                Content-Length: 11\r\n\
                                \r\n";
    let mut reader = ByteReader::new(&data[..]);

    assert_eq!(
        to_map(read_headers(&mut reader)?),
        HashMap::from([(
            String::from("Content-Length"),
            HeaderValue::Single(String::from("11"))
        )])
    );

    Ok(())
}

#[test]
fn request_test_read_body_with_content_length_valid() -> Result<(), RequestParseError> {
    let data = b"Hello World";
    let mut reader = ByteReader::new(&data[..]);

    assert_eq!(
        read_body_with_content_length(&mut reader, data.len())?,
        Some(String::from_utf8_lossy(data).into_owned())
    );

    Ok(())
}

#[test]
fn request_test_read_body_with_content_length_zero() -> Result<(), RequestParseError> {
    let data = b"Hello World";
    let mut reader = ByteReader::new(&data[..]);

    assert_eq!(read_body_with_content_length(&mut reader, 0)?, None);

    Ok(())
}

#[test]
fn request_test_read_body_with_content_length_not_matching() -> Result<(), RequestParseError> {
    let data = b"Hello World";
    let mut reader = ByteReader::new(&data[..]);

    assert!(matches!(
        read_body_with_content_length(&mut reader, data.len() + 3),
        Err(RequestParseError::Read(_))
    ));

    Ok(())
}
