use bse::sync::client::{build_ws_url, decode_failure, on_incoming, Incoming, IncomingAction};
use bse::sync::cursor::cursor_should_emit;
use bse::sync::error::SyncError;
use bse::sync::state::ConnectionState;

#[test]
fn display_format_matches_spec() {
    let e = SyncError::Connection("refused".into());
    assert_eq!(e.to_string(), "connection failed : refused");
    let e = SyncError::Protocol("bad msgpack".into());
    assert_eq!(e.to_string(), "protocol error : bad msgpack");
    let e = SyncError::NotImplemented("reconnect");
    assert_eq!(e.to_string(), "not yet implemented : reconnect");
}

#[test]
fn first_api_error_messages() {
    let e = bse::sync::SyncError::Connection("down".into());
    assert_eq!(e.to_string(), "connection failed : down");
    let e = bse::sync::SyncError::NotImplemented("sync");
    assert_eq!(e.to_string(), "not yet implemented : sync");
}

#[test]
fn default_is_offline() {
    assert_eq!(ConnectionState::default(), ConnectionState::Offline);
    assert_eq!(bse::sync::ConnectionState::default(), bse::sync::ConnectionState::Offline);
}

#[test]
fn labels_are_stable() {
    assert_eq!(ConnectionState::Offline.label(), "Offline");
    assert_eq!(ConnectionState::Connecting.label(), "Connecting...");
    assert_eq!(ConnectionState::Connected.label(), "Connected");
    assert_eq!(ConnectionState::Reconnecting.label(), "Reconnecting...");
}

#[test]
fn first_api_labels_match() {
    assert_eq!(bse::sync::ConnectionState::Offline.label(), "Offline");
    assert_eq!(bse::sync::ConnectionState::Connecting.label(), "Connecting...");
    assert_eq!(bse::sync::ConnectionState::Connected.label(), "Connected");
    assert_eq!(bse::sync::ConnectionState::Reconnecting.label(), "Reconnecting...");
}

#[test]
fn build_ws_url_plain() {
    let u = build_ws_url("ws://localhost:8080", "room-42", None).expect("valid");
    assert_eq!(u.scheme(), "ws");
    assert_eq!(u.host_str(), Some("localhost"));
    assert_eq!(u.port(), Some(8080));
    assert_eq!(u.path(), "/ws/rooms/room-42");
}

#[test]
fn build_ws_url_secure() {
    let u = build_ws_url("wss://bse.example.com", "abc", None).expect("valid");
    assert_eq!(u.scheme(), "wss");
    assert_eq!(u.path(), "/ws/rooms/abc");
}

#[test]
fn build_ws_url_rejects_http_scheme() {
    let err = build_ws_url("http://localhost:8080", "x", None)
        .expect_err("http should be rejected as the protocol mismatch is silent otherwise");
    assert!(matches!(err, SyncError::Connection(_)));
    assert_eq!(
        err.to_string(),
        "connection failed : unsupported scheme `http`, expected ws or wss"
    );
}

#[test]
fn build_ws_url_rejects_garbage() {
    let err = build_ws_url("not a url", "x", None).expect_err("garbage rejected");
    assert!(matches!(err, SyncError::Connection(_)));
    match err {
        SyncError::Connection(m) => assert!(m.starts_with("invalid server URL : ")),
        _ => unreachable!(),
    }
}

#[test]
fn build_ws_url_appends_token_only_when_non_empty() {
    let u = build_ws_url("ws://localhost:8080", "r", Some("abc")).expect("valid");
    assert_eq!(u.query(), Some("token=abc"));
    let u = build_ws_url("ws://localhost:8080", "r", Some("")).expect("valid");
    assert_eq!(u.query(), None);
}

#[test]
fn cursor_throttle_decisions() {
    assert!(cursor_should_emit(true, None));
    assert!(!cursor_should_emit(false, None));
    assert!(!cursor_should_emit(false, Some(1000)));
    assert!(!cursor_should_emit(true, Some(10)));
    assert!(!cursor_should_emit(true, Some(32)));
    assert!(cursor_should_emit(true, Some(33)));
    assert!(cursor_should_emit(true, Some(40)));
}

#[test]
fn incoming_frames_drive_state_and_action() {
    let (st, act) = on_incoming(ConnectionState::Connected, Incoming::Binary(vec![1, 2, 3]));
    assert_eq!(st, ConnectionState::Connected);
    assert!(matches!(act, IncomingAction::Decode(ref b) if b == &vec![1u8, 2, 3]));
    let (st, act) = on_incoming(ConnectionState::Connected, Incoming::Ended);
    assert_eq!(st, ConnectionState::Offline);
    match act {
        IncomingAction::Fail(SyncError::Connection(m)) => assert_eq!(m, "stream closed by peer"),
        _ => panic!("expected a connection failure"),
    }
    let (st, act) = on_incoming(ConnectionState::Connected, Incoming::TransportError("reset".into()));
    assert_eq!(st, ConnectionState::Connected);
    match act {
        IncomingAction::Fail(SyncError::Connection(m)) => assert_eq!(m, "ws recv : reset"),
        _ => panic!("expected a connection failure"),
    }
    let (st, act) = on_incoming(ConnectionState::Connected, Incoming::Close);
    assert_eq!(st, ConnectionState::Offline);
    assert!(matches!(act, IncomingAction::Nothing));
    for ev in [Incoming::Pending, Incoming::Text(5), Incoming::Control] {
        let (st, act) = on_incoming(ConnectionState::Connecting, ev);
        assert_eq!(st, ConnectionState::Connecting);
        assert!(matches!(act, IncomingAction::Nothing));
    }
}

#[test]
fn decode_failure_is_a_protocol_error() {
    match decode_failure("invalid marker") {
        SyncError::Protocol(m) => assert_eq!(m, "server msg decode : invalid marker"),
        _ => panic!("expected a protocol error"),
    }
}

#[test]
fn build_ws_url_full_text() {
    let u = build_ws_url("ws://localhost:8080", "room-42", None).expect("valid");
    assert_eq!(u.as_str(), "ws://localhost:8080/ws/rooms/room-42");
    assert_eq!(u.query(), None);
    let u = build_ws_url("wss://bse.example.com/base/", "a b", Some("x&y")).expect("valid");
    assert_eq!(u.as_str(), "wss://bse.example.com/ws/rooms/a%20b?token=x%26y");
}
