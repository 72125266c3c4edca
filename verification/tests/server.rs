use prime_server::server::head::{collect_headers, header_pair, start_line_parts};
use prime_server::server::method::Method;
use prime_server::server::options::CreateServerOptions;
use prime_server::server::response::Response;
use prime_server::server::status::Status;

#[test]
fn build_write_response_text() {
    let mut response = Response::new();
    response.set_header(String::from("Content-Type"), String::from("text/plain"));
    response.set_header(String::from("X-A"), String::from("1"));
    response.set_header(String::from("Content-Type"), String::from("text/html"));
    response.set_status(Status::OK);
    response.set_body(String::from("hello world"));
    assert_eq!(
        response.build_write_response().unwrap(),
        "HTTP/1.1 200 OK\nContent-Type: text/html\nX-A: 1\n\nhello world\n\n"
    );
}

#[test]
fn empty_response_text() {
    assert_eq!(Response::new().build_write_response().unwrap(), "HTTP/1.1 200 OK\n\n\n\n");
}

#[test]
fn status() {
    assert_eq!(Status::OK.as_string(), "OK");
    assert_eq!(Status::OK.code(), 200);
}

#[test]
fn route_methods() {
    assert_eq!("GET".parse::<Method>(), Ok(Method::GET));
    assert_eq!("OPTIONS".parse::<Method>(), Ok(Method::OPTIONS));
    assert_eq!("TRACE".parse::<Method>(), Err(()));
    assert_eq!(Method::from_str("CONNECT"), Err(()));
}

#[test]
fn options_address() {
    assert_eq!(CreateServerOptions::default().address(), "127.0.0.1:8080");
    assert_eq!(CreateServerOptions::new("0.0.0.0", 80).address(), "0.0.0.0:80");
    assert_eq!(CreateServerOptions::new("::1", 0).address(), "::1:0");
}

#[test]
fn connection_head() {
    assert_eq!(
        start_line_parts("GET / HTTP/1.1\r\n"),
        Some((String::from("GET"), String::from("/"), String::from("HTTP/1.1\r\n")))
    );
    assert_eq!(start_line_parts("GET /"), None);
    assert_eq!(
        header_pair("Host: example.org: 80"),
        Some((String::from("Host"), String::from("example.org: 80")))
    );
    assert_eq!(header_pair("Host:example.org"), None);
}

#[test]
fn collect_headers_skips_lines_without_separator() {
    let lines = vec![
        String::from("Host: a"),
        String::from("bad"),
        String::from("X: 1"),
        String::from(""),
        String::from("Host: b"),
    ];
    let (table, skipped) = collect_headers(&lines);
    assert_eq!(skipped, 2);
    assert_eq!(
        table.into_entries(),
        vec![
            (String::from("Host"), String::from("b")),
            (String::from("X"), String::from("1"))
        ]
    );
}
