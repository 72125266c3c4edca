use prime_server::rapid::version::{InvalidVersionError, Version};

#[test]
fn test_version_from_str() -> Result<(), InvalidVersionError> {
    let cases = [("HTTP/1.1", Version::HTTP1_1)];

    for (s, expected) in cases {
        assert_eq!(s.parse::<Version>()?, expected);
    }

    Ok(())
}
