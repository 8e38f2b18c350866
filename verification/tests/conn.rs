use birdlobby::socket::{WsAction, WsConn, WsEvent, CLIENT_TIMEOUT_SECS, HEARTBEAT_SECS};

#[test]
fn new_connection_defaults_to_room_zero() {
    let c = WsConn::new(None);
    assert_eq!(c.room, 0);
    assert!(c.open);
    let c = WsConn::new(Some(9));
    assert_eq!(c.room, 9);
    let req = c.connect_request();
    assert_eq!(req.lobby_id, 9);
    assert_eq!(req.self_id, c.id);
}

#[test]
fn ping_marks_activity_and_pongs_back() {
    let mut c = WsConn::new(None);
    let actions = c.handle(WsEvent::Ping(vec![1, 2]));
    assert_eq!(actions.len(), 2);
    assert!(matches!(actions[0], WsAction::MarkActivity));
    assert!(matches!(&actions[1], WsAction::SendPong(p) if p == &vec![1, 2]));
    assert!(c.open);
}

#[test]
fn pong_only_marks_activity() {
    let mut c = WsConn::new(None);
    let actions = c.handle(WsEvent::Pong);
    assert_eq!(actions.len(), 1);
    assert!(matches!(actions[0], WsAction::MarkActivity));
}

#[test]
fn text_is_forwarded_verbatim() {
    let mut c = WsConn::new(Some(4));
    let id = c.id;
    let actions = c.handle(WsEvent::Text("!ready".to_string()));
    assert_eq!(actions.len(), 1);
    match &actions[0] {
        WsAction::Forward(m) => {
            assert_eq!(m.id, id);
            assert_eq!(m.room_id, 4);
            assert_eq!(m.msg, "!ready");
        }
        _ => panic!("expected a forward"),
    }
    assert!(c.open);
}

#[test]
fn binary_is_echoed() {
    let mut c = WsConn::new(None);
    let actions = c.handle(WsEvent::Binary(vec![9, 9]));
    assert_eq!(actions.len(), 1);
    assert!(matches!(&actions[0], WsAction::EchoBinary(b) if b == &vec![9, 9]));
}

#[test]
fn close_continuation_and_errors_end_the_connection() {
    for ev in [WsEvent::CloseFrame, WsEvent::Continuation, WsEvent::TransportError] {
        let mut c = WsConn::new(None);
        let actions = c.handle(ev);
        assert_eq!(actions.len(), 1);
        assert!(matches!(actions[0], WsAction::CloseConn));
        assert!(!c.open);
    }
}

#[test]
fn nop_does_nothing() {
    let mut c = WsConn::new(None);
    assert!(c.handle(WsEvent::Nop).is_empty());
    assert!(c.open);
}

#[test]
fn heartbeat_pings_while_alive_and_cuts_dead_peers() {
    assert_eq!(HEARTBEAT_SECS, 10);
    assert_eq!(CLIENT_TIMEOUT_SECS, 120);
    let mut c = WsConn::new(None);
    let actions = c.heartbeat(120);
    assert_eq!(actions.len(), 1);
    assert!(matches!(actions[0], WsAction::SendPing));
    assert!(c.open);
    let actions = c.heartbeat(121);
    assert_eq!(actions.len(), 2);
    match &actions[0] {
        WsAction::NotifyDisconnect(d) => {
            assert_eq!(d.id, c.id);
            assert_eq!(d.room_id, 0);
        }
        _ => panic!("expected a disconnect notice"),
    }
    assert!(matches!(actions[1], WsAction::CloseConn));
    assert!(!c.open);
}

#[test]
fn disconnect_is_announced_exactly_once() {
    let mut c = WsConn::new(Some(2));
    let id = c.id;
    let first = c.stopping();
    let d = first.expect("first close announces the disconnect");
    assert_eq!(d.id, id);
    assert_eq!(d.room_id, 2);
    assert!(c.stopping().is_none());
    assert!(c.stopping().is_none());
    assert!(!c.open);
}
