use prime_server::rapid::method::{InvalidMethodError, Method};

#[test]
fn test_method_parsing() -> Result<(), InvalidMethodError> {
    let cases = [
        ("HEAD", Method::HEAD),
        ("GET", Method::GET),
        ("QUERY", Method::QUERY),
        ("POST", Method::POST),
        ("PUT", Method::PUT),
        ("PATCH", Method::PATCH),
        ("DELETE", Method::DELETE),
        ("OPTIONS", Method::OPTIONS),
        ("CONNECT", Method::CONNECT),
        ("TRACE", Method::TRACE),
    ];

    for (s, expected) in cases {
        assert_eq!(Method::from_str(s)?, expected);
    }

    Ok(())
}

#[test]
fn test_invalid_method() {
    assert!(matches!(Method::from_str("INVALID"), Err(InvalidMethodError)));
}
