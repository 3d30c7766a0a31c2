use http_server::request::Method;
use http_server::router::{Route, Router, StaticPageHandler, PageNotFoundHandler};
use http_server::worker::{handle_connection, handle_web_socket_connection, HttpAction, ReadOutcome, WsAction};

#[test]
fn http_step_outcomes() {
    assert!(matches!(handle_connection(ReadOutcome::Closed), HttpAction::Close));
    assert!(matches!(handle_connection(ReadOutcome::Failed), HttpAction::Close));
    assert!(matches!(handle_connection(ReadOutcome::WouldBlock), HttpAction::Requeue));
    assert!(matches!(handle_connection(ReadOutcome::Data(vec![0xff, 0xfe])), HttpAction::Close));
    match handle_connection(ReadOutcome::Data(b"GET /greeting HTTP/1.1\r\nHost: localhost\r\n\r\n".to_vec())) {
        HttpAction::Serve(req) => assert_eq!(req.method, Method::Get),
        _ => panic!("a plain request is served"),
    }
}

#[test]
fn http_step_upgrades() {
    let text = "GET /chat HTTP/1.1\r\nUpgrade: websocket\r\nConnection: Upgrade\r\nSec-WebSocket-Version: 13\r\nSec-WebSocket-Key: dGhlIHNhbXBsZSBub25jZQ==\r\n\r\n";
    match handle_connection(ReadOutcome::Data(text.as_bytes().to_vec())) {
        HttpAction::Upgrade(res) => {
            assert_eq!(res.headers.get("Sec-WebSocket-Accept"), Some("s3pPLMBiTxaQ9kYGzzhZRbK+xOo=".to_string()));
        }
        _ => panic!("an upgrade request is answered with the handshake"),
    }
}

#[test]
fn ws_step_outcomes() {
    assert!(matches!(handle_web_socket_connection(ReadOutcome::Closed), WsAction::Close));
    assert!(matches!(handle_web_socket_connection(ReadOutcome::WouldBlock), WsAction::Requeue));
    assert!(matches!(handle_web_socket_connection(ReadOutcome::Data(vec![0x81, 126])), WsAction::Close));
    match handle_web_socket_connection(ReadOutcome::Data(vec![0x89, 0x00])) {
        WsAction::Received(f) => assert!(f.payload.is_empty()),
        _ => panic!("a whole frame is received"),
    }
}

#[test]
fn routes_and_pages() {
    let get = |path: &str| http_server::request::HttpRequest::parse(&format!("GET {path} HTTP/1.1\r\n\r\n"));
    assert_eq!(Router::route(&get("/")), Route::Index);
    assert_eq!(Router::route(&get("/style.css")), Route::File("style.css".to_string()));
    assert_eq!(Router::route(&get("/css/style.css")), Route::File("css".to_string()));
    assert_eq!(Router::route(&get("nothing")), Route::NotFound);
    let post = http_server::request::HttpRequest::parse("POST / HTTP/1.1\r\n\r\n");
    assert_eq!(Router::route(&post), Route::NotFound);
    let page = StaticPageHandler::file_page("app.min.js", "x".to_string());
    assert_eq!(page.headers.get("Content-Type"), Some("text/javascript".to_string()));
    let page = StaticPageHandler::file_page("README", "x".to_string());
    assert_eq!(page.headers.get("Content-Type"), Some("text/plain".to_string()));
    let page = StaticPageHandler::file_page("a.css", "x".to_string());
    assert_eq!(page.headers.get("Content-Type"), Some("text/css".to_string()));
    let missing = PageNotFoundHandler::handle(None);
    assert_eq!(missing.status_code, "404");
    assert_eq!(StaticPageHandler::index_page(Some("i".to_string())).status_code, "200");
}
