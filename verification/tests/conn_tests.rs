use bp_core::conn::{
    handshake_frame, handshake_message, ConnectionManager, LinkAction, LinkEvent, LinkState,
    SendError,
};
use bp_core::frame::{Frame, NORMAL_STATUS, PROTOCOL_VERSION};

fn manager() -> ConnectionManager {
    ConnectionManager::new("worker:9000".to_string(), 3)
}

#[test]
fn reconnect_convergence_two_failures_then_connected() {
    let mut m = manager();
    assert_eq!(LinkState::Disconnected, m.state());

    // first attempt fails
    assert_eq!(LinkAction::Dial, m.step(LinkEvent::ConnectStarted));
    assert_eq!(LinkAction::DropWriterAndWait, m.step(LinkEvent::ConnectFailed));
    // second attempt fails
    assert_eq!(LinkAction::Dial, m.step(LinkEvent::ConnectStarted));
    assert_eq!(LinkAction::DropWriterAndWait, m.step(LinkEvent::ConnectFailed));
    // third attempt succeeds, handshake goes through
    assert_eq!(LinkAction::Dial, m.step(LinkEvent::ConnectStarted));
    assert_eq!(LinkAction::SendHandshake, m.step(LinkEvent::ConnectSucceeded));
    assert_eq!(LinkAction::StartSession, m.step(LinkEvent::HandshakeSent));

    assert_eq!(LinkState::Connected, m.state());
    assert_eq!(2, m.failures());

    // subsequent sends succeed
    let f = Frame {
        status: NORMAL_STATUS,
        version: PROTOCOL_VERSION,
        attachments: vec![],
        message: b"hi".to_vec(),
    };
    assert!(m.prepare_send(&f).is_ok());
}

#[test]
fn send_while_not_connected_fails_immediately() {
    let mut m = manager();
    let f = Frame {
        status: NORMAL_STATUS,
        version: PROTOCOL_VERSION,
        attachments: vec![],
        message: vec![],
    };
    assert_eq!(Err(SendError::NotConnected), m.prepare_send(&f).map(|_| ()));
    m.step(LinkEvent::ConnectStarted);
    assert_eq!(Err(SendError::NotConnected), m.prepare_send(&f).map(|_| ()));
    m.step(LinkEvent::ConnectSucceeded);
    assert_eq!(Err(SendError::NotConnected), m.prepare_send(&f).map(|_| ()));
}

#[test]
fn write_failure_disconnects() {
    let mut m = manager();
    m.step(LinkEvent::ConnectStarted);
    m.step(LinkEvent::ConnectSucceeded);
    m.step(LinkEvent::HandshakeSent);
    assert_eq!(LinkState::Connected, m.state());
    assert_eq!(LinkAction::DropWriterAndWait, m.step(LinkEvent::WriteFailed));
    assert_eq!(LinkState::Disconnected, m.state());
}

#[test]
fn handshake_message_shape() {
    let msg = handshake_message("secret_token");
    assert_eq!(
        "{\"client_type\":\"request\",\"auth_token\":\"secret_token\"}",
        msg
    );
    // the message is valid JSON with exactly those fields, escapes included
    let msg = handshake_message("we\"ird\\tok\ten");
    let v: serde_json::Value = serde_json::from_str(&msg).expect("valid JSON");
    assert_eq!(Some("request"), v.get("client_type").and_then(|x| x.as_str()));
    assert_eq!(
        Some("we\"ird\\tok\ten"),
        v.get("auth_token").and_then(|x| x.as_str())
    );
}

#[test]
fn handshake_frame_shape() {
    let f = handshake_frame("secret");
    assert_eq!(NORMAL_STATUS, f.status);
    assert_eq!(PROTOCOL_VERSION, f.version);
    assert!(f.attachments.is_empty());
    assert_eq!(
        b"{\"client_type\":\"request\",\"auth_token\":\"secret\"}".to_vec(),
        f.message
    );
}

#[test]
fn keepalive_is_ping() {
    let m = manager();
    let f = m.keepalive_frame();
    assert_eq!(bp_core::frame::PING_STATUS, f.status);
    assert!(f.attachments.is_empty());
    assert!(f.message.is_empty());
}
