use prime_server::rapid::header::{HeaderValue, InvalidHeaderValueError};

#[test]
fn test_single_value_with_ows_from_str() -> Result<(), InvalidHeaderValueError> {
    let cases = [
        (
            "text/plain",
            HeaderValue::Single(String::from("text/plain")),
        ),
        ("12   ", HeaderValue::Single(String::from("12"))),
        ("   chunked", HeaderValue::Single(String::from("chunked"))),
    ];

    for (s, expected) in cases {
        assert_eq!(s.parse::<HeaderValue>()?, expected);
    }

    Ok(())
}

#[test]
fn test_multiple_values_with_ows_from_str() -> Result<(), InvalidHeaderValueError> {
    let cases = [
        (
            "text/plain, application/json",
            HeaderValue::Many(vec![
                String::from("text/plain"),
                String::from("application/json"),
            ]),
        ),
        (
            "   gzip,    deflate   , br   ",
            HeaderValue::Many(vec![
                String::from("gzip"),
                String::from("deflate"),
                String::from("br"),
            ]),
        ),
        (
            "fr         ,en",
            HeaderValue::Many(vec![String::from("fr"), String::from("en")]),
        ),
    ];

    for (s, expected) in cases {
        assert_eq!(s.parse::<HeaderValue>()?, expected);
    }

    Ok(())
}

#[test]
fn test_empty_value_from_str() {
    let cases = ["", "      ", "\n"];

    for case in cases {
        assert!(matches!(case.parse::<HeaderValue>(), Err(InvalidHeaderValueError)));
    }
}
