use rust_websocket_server::websocket::handler::{ws_setting, Handler, Route};

#[test]
fn test_response_config_ws_setting() {
    let ws_setting = ws_setting(b"test-key");
    assert_eq!(ws_setting.status, 101);
    let header = |name: &str| {
        ws_setting
            .headers
            .iter()
            .find(|h| h.name == name)
            .map(|h| h.value.clone())
    };
    assert_eq!(header("Upgrade"), Some(String::from("websocket")));
    assert_eq!(header("Connection"), Some(String::from("Upgrade")));
}

#[test]
fn accept_key_matches_the_protocol_example() {
    let res = ws_setting(b"dGhlIHNhbXBsZSBub25jZQ==");
    assert_eq!(res.headers.len(), 3);
    assert_eq!(res.headers[2].name, "Sec-WebSocket-Accept");
    assert_eq!(res.headers[2].value, "s3pPLMBiTxaQ9kYGzzhZRbK+xOo=");
}

#[test]
fn only_get_of_ws_is_upgraded() {
    let router = Handler::new();
    let s = |x: &str| String::from(x);
    assert_eq!(router.router(&s("GET"), &s("/ws")), Route::Upgrade);
    assert_eq!(router.router(&s("POST"), &s("/ws")), Route::NotFound);
    assert_eq!(router.router(&s("GET"), &s("/")), Route::NotFound);
    assert_eq!(router.router(&s("GET"), &s("/ws/")), Route::NotFound);
}
