use penguin::text::eq_ignore_ascii_case;
use penguin::server::{
    backend_or_404_handler, listen_host, make_sec_websocket_accept, route,
    server_main, ws_handler, BackendUrl, Fallback, HeaderName, Rejection, Route, ServerState,
    StealthWebSocketUpgrade, UpgradeRequest,
};

fn state(psk: Option<&[u8]>) -> ServerState {
    ServerState {
        backend: Some(BackendUrl {
            scheme: b"http".to_vec(),
            authority: b"localhost:8080".to_vec(),
            path: b"/".to_vec(),
        }),
        ws_psk: psk.map(|p| p.to_vec()),
        not_found_resp: b"not found in the test".to_vec(),
        protocol: b"penguin-v6".to_vec(),
    }
}

fn good_request() -> UpgradeRequest {
    UpgradeRequest {
        is_get: true,
        connection: Some(b"UpGrAdE".to_vec()),
        upgrade: Some(b"WEBSOCKET".to_vec()),
        sec_websocket_key: Some(b"dGhlIHNhbXBsZSBub25jZQ==".to_vec()),
        sec_websocket_protocol: Some(b"penguin-v6".to_vec()),
        sec_websocket_version: Some(b"13".to_vec()),
        x_penguin_psk: None,
        can_upgrade: true,
    }
}

#[test]
fn test_make_sec_websocket_accept() {
    let key = "dGhlIHNhbXBsZSBub25jZQ==";
    let expected = "s3pPLMBiTxaQ9kYGzzhZRbK+xOo=";
    let actual = make_sec_websocket_accept(key.as_bytes());
    assert_eq!(actual, expected.as_bytes());
    let key = "7S3qp57psT3kwWF29CFJNg==";
    let expected = "4s9bDvNVhoia18oejmdBEUJci9s=";
    let actual = make_sec_websocket_accept(key.as_bytes());
    assert_eq!(actual, expected.as_bytes());
}

#[test]
fn test_stealth_websocket_upgrade_from_request_parts() {
    let state = state(None);
    let parts = UpgradeRequest {
        is_get: true,
        connection: Some(b"UpGrAdE".to_vec()),
        upgrade: Some(b"WEBSOCKET".to_vec()),
        sec_websocket_key: None,
        sec_websocket_protocol: Some(state.protocol.clone()),
        sec_websocket_version: Some(b"13".to_vec()),
        x_penguin_psk: None,
        can_upgrade: false,
    };
    let upgrade = StealthWebSocketUpgrade::from_request_parts(&parts, &state);
    assert!(upgrade.is_err());
}

#[test]
fn upgrade_is_carried_out() {
    let state = state(None);
    let upgrade = StealthWebSocketUpgrade::from_request_parts(&good_request(), &state).unwrap();
    let response = upgrade.on_upgrade();
    assert_eq!(response.status, 101);
    assert_eq!(
        response.headers,
        vec![
            (HeaderName::Connection, b"upgrade".to_vec()),
            (HeaderName::Upgrade, b"websocket".to_vec()),
            (HeaderName::SecWebSocketProtocol, b"penguin-v6".to_vec()),
            (HeaderName::SecWebSocketAccept, b"s3pPLMBiTxaQ9kYGzzhZRbK+xOo=".to_vec()),
        ]
    );
    assert!(response.body.is_empty());
    assert_eq!(ws_handler(&good_request(), &state), response);
}

#[test]
fn every_failed_check_is_answered_as_not_found() {
    let open = state(None);
    let keyed = state(Some(b"secret"));
    let check = |parts: &UpgradeRequest, state: &ServerState, reason: Rejection| {
        assert_eq!(StealthWebSocketUpgrade::from_request_parts(parts, state).err(), Some(reason));
        let response = ws_handler(parts, state);
        assert_eq!(response.status, 404);
        assert!(response.headers.is_empty());
        assert_eq!(response.body, b"not found in the test".to_vec());
    };
    let mut parts = good_request();
    parts.is_get = false;
    check(&parts, &open, Rejection::Method);
    check(&good_request(), &keyed, Rejection::Psk);
    let mut parts = good_request();
    parts.x_penguin_psk = Some(b"Secret".to_vec());
    check(&parts, &keyed, Rejection::Psk);
    let mut parts = good_request();
    parts.sec_websocket_key = None;
    check(&parts, &open, Rejection::Key);
    let mut parts = good_request();
    parts.connection = None;
    check(&parts, &open, Rejection::Headers);
    let mut parts = good_request();
    parts.upgrade = Some(b"websockets".to_vec());
    check(&parts, &open, Rejection::Headers);
    let mut parts = good_request();
    parts.sec_websocket_version = Some(b"12".to_vec());
    check(&parts, &open, Rejection::Headers);
    let mut parts = good_request();
    parts.sec_websocket_protocol = Some(b"PENGUIN-V6".to_vec());
    check(&parts, &open, Rejection::Headers);
    let mut parts = good_request();
    parts.can_upgrade = false;
    check(&parts, &open, Rejection::Upgrade);
    // the first failed check is the reason
    let mut parts = good_request();
    parts.is_get = false;
    parts.sec_websocket_key = None;
    check(&parts, &keyed, Rejection::Method);
    // with the key presented the upgrade goes through
    let mut parts = good_request();
    parts.x_penguin_psk = Some(b"secret".to_vec());
    assert!(StealthWebSocketUpgrade::from_request_parts(&parts, &keyed).is_ok());
}

#[test]
fn case_of_ascii_letters_is_ignored() {
    assert!(eq_ignore_ascii_case(b"UpGrAdE", b"upgrade"));
    assert!(eq_ignore_ascii_case(b"", b""));
    assert!(!eq_ignore_ascii_case(b"upgrade", b"upgrad"));
    assert!(!eq_ignore_ascii_case(b"@", b"`"));
    assert!(!eq_ignore_ascii_case(b"[", b"{"));
    assert!(eq_ignore_ascii_case(b"Z9-", b"z9-"));
}

#[test]
fn requests_for_other_paths() {
    let with_backend = state(None);
    assert_eq!(
        backend_or_404_handler(&with_backend, b"/a", Some(&b"/a?b=c"[..])),
        Fallback::Proxy {
            scheme: b"http".to_vec(),
            authority: b"localhost:8080".to_vec(),
            path_and_query: b"//a?b=c".to_vec(),
        }
    );
    assert_eq!(
        backend_or_404_handler(&with_backend, b"/a", None),
        Fallback::Proxy {
            scheme: b"http".to_vec(),
            authority: b"localhost:8080".to_vec(),
            path_and_query: b"//a".to_vec(),
        }
    );
    let mut without = state(None);
    without.backend = None;
    match backend_or_404_handler(&without, b"/a", None) {
        Fallback::NotFound(response) => {
            assert_eq!(response.status, 404);
            assert_eq!(response.body, b"not found in the test".to_vec());
        }
        other => panic!("expected not found, got {:?}", other),
    }
}

#[test]
fn listening_host_loses_its_brackets() {
    assert_eq!(listen_host(b"[::1]"), b"::1");
    assert_eq!(listen_host(b"127.0.0.1"), b"127.0.0.1");
    assert_eq!(listen_host(b"["), b"[");
    assert_eq!(listen_host(b"[]"), b"");
    assert_eq!(listen_host(b"[::1"), b"[::1");
    assert_eq!(listen_host(b""), b"");
    let plan = server_main(b"[::]", true, false);
    assert_eq!(plan.host, b"::".to_vec());
    assert!(plan.tls && plan.info_routes);
    let plan = server_main(b"0.0.0.0", false, true);
    assert!(!plan.tls && !plan.info_routes);
}

#[test]
fn routes_depend_on_obfuscation() {
    assert_eq!(route(b"/ws", false), Route::WebSocket);
    assert_eq!(route(b"/ws", true), Route::WebSocket);
    assert_eq!(route(b"/version", false), Route::Version);
    assert_eq!(route(b"/version", true), Route::Fallback);
    assert_eq!(route(b"/health", false), Route::Health);
    assert_eq!(route(b"/health", true), Route::Fallback);
    assert_eq!(route(b"/", false), Route::Fallback);
}

#[test]
fn case_insensitive_comparison_agrees_with_the_standard_library() {
    for a in 0..=255u8 {
        for b in 0..=255u8 {
            assert_eq!(eq_ignore_ascii_case(&[a], &[b]), [a].eq_ignore_ascii_case(&[b]));
        }
    }
    assert_eq!(
        eq_ignore_ascii_case(b"Sec-WebSocket", b"sec-websocket"),
        b"Sec-WebSocket".eq_ignore_ascii_case(b"sec-websocket")
    );
}
