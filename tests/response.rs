use http_server::headers::HeaderMap;
use http_server::response::{decimal_text, HttpResponse};

fn two_headers() -> HeaderMap {
    let mut headers = HeaderMap::new();
    headers.insert("Content-Type".to_string(), "text/html".to_string());
    headers.insert("Authentication".to_string(), "Bearer 123456".to_string());
    headers
}

#[test]
fn test_get_headers_from_string() {
    let res = HttpResponse::new("200", Some(two_headers()), None);
    assert_eq!(res.get_headers_as_string(), "Content-Type: text/html\r\nAuthentication: Bearer 123456\r\n".to_string());
}

#[test]
fn test_string_from_http_response() {
    let response = HttpResponse::new("404", Some(two_headers()), Some(String::from("Hello world")));

    let response_string = String::from(response);
    let expected_string = "HTTP/1.1 404 Not Found\r\nContent-Type: text/html\r\nAuthentication: Bearer 123456\r\n\r\nHello world".to_string();
    assert_eq!(expected_string, response_string);
}

#[test]
fn default_headers_and_status_texts() {
    let res = HttpResponse::new("500", None, None);
    assert_eq!(res.status_text, "Server error");
    assert_eq!(res.get_headers_as_string(), "Content-Type: text/html\r\nConnection: keep-alive\r\n");
    assert_eq!(HttpResponse::new("400", None, None).status_text, "Bad request");
    assert_eq!(HttpResponse::new("200", None, None).status_text, "OK");
    assert_eq!(HttpResponse::new("302", None, None).status_text, "Unknown");
}

#[test]
fn send_response_sets_content_length_in_bytes() {
    let mut res = HttpResponse::new("200", None, Some("héllo".to_string()));
    let bytes = res.send_response();
    let expected = "HTTP/1.1 200 OK\r\nContent-Type: text/html\r\nConnection: keep-alive\r\nContent-Length: 6\r\n\r\nhéllo";
    assert_eq!(bytes, expected.as_bytes().to_vec());
    assert_eq!(res.headers.get("Content-Length"), Some("6".to_string()));
}

#[test]
fn send_response_without_body_has_zero_length() {
    let mut res = HttpResponse::new("404", None, None);
    let bytes = res.send_response();
    let text = String::from_utf8(bytes).unwrap();
    assert!(text.ends_with("Content-Length: 0\r\n\r\n"));
}

#[test]
fn decimal_forms() {
    assert_eq!(decimal_text(0), "0");
    assert_eq!(decimal_text(7), "7");
    assert_eq!(decimal_text(1024), "1024");
    assert_eq!(decimal_text(usize::MAX), usize::MAX.to_string());
}

#[test]
fn header_insert_replaces_in_place() {
    let mut headers = two_headers();
    headers.insert("Content-Type".to_string(), "text/css".to_string());
    assert_eq!(headers.len(), 2);
    assert_eq!(headers.to_text(), "Content-Type: text/css\r\nAuthentication: Bearer 123456\r\n");
    assert_eq!(headers.get("Missing"), None);
}
