use rainy_mate::socket::{SocketAction, SocketEvent, SocketState};

#[test]
fn socket_reconnects_after_close_or_error() {
    let mut s = SocketState::new();
    assert!(!s.is_connected());
    assert!(matches!(s.on_event(SocketEvent::ConnectFailed), SocketAction::Reconnect(5)));
    assert!(!s.is_connected());
    assert!(matches!(s.on_event(SocketEvent::Connected), SocketAction::ReadNext));
    assert!(s.is_connected());
    assert!(matches!(
        s.on_event(SocketEvent::Text("{\"event\":\"x\",\"payload\":null}".to_string())),
        SocketAction::Broadcast(t) if t.starts_with("{\"event\"")
    ));
    assert!(matches!(s.on_event(SocketEvent::Binary), SocketAction::ReadNext));
    assert!(matches!(s.on_event(SocketEvent::Other), SocketAction::ReadNext));
    assert!(s.is_connected());
    assert!(matches!(s.on_event(SocketEvent::Close), SocketAction::Reconnect(5)));
    assert!(!s.is_connected());
    s.on_event(SocketEvent::Connected);
    assert!(matches!(s.on_event(SocketEvent::Error), SocketAction::Reconnect(5)));
    assert!(!s.is_connected());
}
