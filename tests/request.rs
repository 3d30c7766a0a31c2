use http_server::request::{HttpRequest, Method, Resource, Version};

#[test]
fn test_method_into() {
    let method: Method = "GET".into();
    assert_eq!(method, Method::Get);
}

#[test]
fn test_version_into() {
    let version: Version = "HTTP/1.1".into();
    assert_eq!(version, Version::V1_1);
}

#[test]
fn test_read_http() {
    let test_string: String = String::from("GET /greeting HTTP/1.1\r\nHost: localhost:3000\r\nUser-Agent: curl/7.64.1\r\nAccept: */*\r\n\r\nHello world");
    let expected = [("Host", "localhost"), ("Accept", "*/*"), ("User-Agent", "curl/7.64.1")];

    let req: HttpRequest = test_string.into();
    assert_eq!(Method::Get, req.method);
    assert_eq!(Version::V1_1, req.version);
    assert_eq!(Resource::Path("/greeting".to_string()), req.resource);
    assert_eq!(req.headers.len(), expected.len());
    for (key, value) in expected {
        assert_eq!(req.headers.get(key), Some(value.to_string()));
    }
    assert_eq!("Hello world", req.body);
}

#[test]
fn greeting_request_parses() {
    let req = HttpRequest::parse("GET /greeting HTTP/1.1\r\nHost: localhost\r\n\r\n");
    assert_eq!(req.method, Method::Get);
    assert_eq!(req.resource, Resource::Path("/greeting".to_string()));
    assert_eq!(req.version, Version::V1_1);
    assert_eq!(req.headers.len(), 1);
    assert_eq!(req.headers.get("Host"), Some("localhost".to_string()));
    assert_eq!(req.body, "");
}

#[test]
fn empty_request_is_uninitialized() {
    let req = HttpRequest::parse("");
    assert_eq!(req.method, Method::Uninitialized);
    assert_eq!(req.version, Version::Uninitialized);
    assert_eq!(req.resource, Resource::Path(String::new()));
    assert_eq!(req.headers.len(), 0);
    assert_eq!(req.body, "");
}

#[test]
fn post_method_and_other_versions() {
    assert_eq!(Method::from("POST"), Method::Post);
    assert_eq!(Method::from("PUT"), Method::Uninitialized);
    assert_eq!(Version::from("HTTP/2.0"), Version::Uninitialized);
}

#[test]
fn header_lines_without_colon_or_key_are_skipped() {
    let req = HttpRequest::parse("GET / HTTP/1.1\r\nNoColon\r\n: empty\r\n  X-A  :  one  \r\n\r\n");
    assert_eq!(req.headers.len(), 1);
    assert_eq!(req.headers.get("X-A"), Some("one".to_string()));
}

#[test]
fn duplicate_header_keeps_last_value() {
    let req = HttpRequest::parse("GET / HTTP/1.1\nA: 1\nB: 2\nA: 3\n\nline one\nline two\n");
    assert_eq!(req.headers.len(), 2);
    assert_eq!(req.headers.get("A"), Some("3".to_string()));
    assert_eq!(req.headers.get("B"), Some("2".to_string()));
    assert_eq!(req.body, "line oneline two");
}

#[test]
fn request_line_with_extra_spaces() {
    let req = HttpRequest::parse("  POST   /submit\tHTTP/1.1  ");
    assert_eq!(req.method, Method::Post);
    assert_eq!(req.resource, Resource::Path("/submit".to_string()));
    assert_eq!(req.version, Version::V1_1);
}
