use prime_server::prime::http_method::{HttpMethod, InvalidHttpMethodError};

#[test]
fn allows_body_documented() {
    assert_eq!(HttpMethod::GET.allows_body(), false);
    assert_eq!(HttpMethod::POST.allows_body(), true);
}

#[test]
fn allows_body_exactly_four() {
    let all = [
        HttpMethod::HEAD,
        HttpMethod::GET,
        HttpMethod::QUERY,
        HttpMethod::POST,
        HttpMethod::PUT,
        HttpMethod::PATCH,
        HttpMethod::DELETE,
        HttpMethod::OPTIONS,
        HttpMethod::CONNECT,
        HttpMethod::TRACE,
    ];
    let with_body: Vec<HttpMethod> = all.iter().copied().filter(|m| m.allows_body()).collect();
    assert_eq!(
        with_body,
        vec![HttpMethod::QUERY, HttpMethod::POST, HttpMethod::PUT, HttpMethod::PATCH]
    );
}

#[test]
fn method_names_round_trip() {
    for (s, m) in [
        ("HEAD", HttpMethod::HEAD),
        ("GET", HttpMethod::GET),
        ("QUERY", HttpMethod::QUERY),
        ("POST", HttpMethod::POST),
        ("PUT", HttpMethod::PUT),
        ("PATCH", HttpMethod::PATCH),
        ("DELETE", HttpMethod::DELETE),
        ("OPTIONS", HttpMethod::OPTIONS),
        ("CONNECT", HttpMethod::CONNECT),
        ("TRACE", HttpMethod::TRACE),
    ] {
        assert_eq!(s.parse::<HttpMethod>(), Ok(m));
    }
    assert_eq!(
        "get".parse::<HttpMethod>(),
        Err(InvalidHttpMethodError(String::from("get")))
    );
}
