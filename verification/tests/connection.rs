use std::time::Duration;

use miai::api::{ApiRequest, ApiResponse, DeviceCall};
use miai::connection::{
    self, Action, Connection, Delivery, Event, Handshake, Incoming, Phase,
};
use miai::WsConfig;

fn config() -> WsConfig {
    WsConfig {
        port: 1,
        max_connections: 1,
        handshake_timeout: Duration::from_secs(10),
        message_timeout: Duration::from_secs(2),
        heartbeat_interval: Duration::from_secs(3),
        idle_timeout: Duration::from_secs(4),
    }
}

fn opened() -> Connection {
    let (mut connection, action) = Connection::open(&config());
    assert!(matches!(action, Action::Shake { .. }));
    assert!(matches!(step(&mut connection, Event::Handshake(Handshake::Done)), Action::Register));
    connection
}

fn step(connection: &mut Connection, event: Event) -> Action {
    assert!(connection.expects(&event));
    connection.next(event)
}

fn error_of(action: Action) -> String {
    match action {
        Action::Respond(ApiResponse::Error { error }) => error,
        other => panic!("{:?}", other),
    }
}

#[test]
fn a_handshake_may_take_as_long_as_configured() {
    let (_, action) = Connection::open(&config());
    assert!(matches!(action, Action::Shake { limit } if limit == Duration::from_secs(10)));
    assert_eq!(connection::handshake_limit(&config()), Duration::from_secs(10));
}

#[test]
fn a_handshake_that_fails_closes() {
    for outcome in [Handshake::Failed, Handshake::TimedOut] {
        let (mut connection, _) = Connection::open(&config());
        let action = step(&mut connection, Event::Handshake(outcome));
        assert!(matches!(action, Action::Close { registered: false }));
        assert_eq!(connection.phase(), Phase::Closed);
    }
}

#[test]
fn a_client_that_closes_is_removed() {
    for incoming in [Incoming::Close, Incoming::End] {
        let mut connection = opened();
        let action = step(&mut connection, Event::Incoming(incoming));
        assert!(matches!(action, Action::Close { registered: true }));
        assert_eq!(connection.phase(), Phase::Closed);
        assert!(!connection.expects(&Event::Incoming(Incoming::Pong)));
        assert!(!connection.expects(&Event::Handshake(Handshake::Done)));
    }
}

#[test]
fn a_ping_is_answered_with_its_payload() {
    let mut connection = opened();
    let action = step(&mut connection, Event::Incoming(Incoming::Ping(vec![1, 2])));
    assert!(matches!(action, Action::Pong(payload) if payload == vec![1, 2]));
    assert!(matches!(step(&mut connection, Event::Ponged(Delivery::Sent)), Action::Receive));
    step(&mut connection, Event::Incoming(Incoming::Ping(vec![])));
    let action = step(&mut connection, Event::Ponged(Delivery::Failed));
    assert!(matches!(action, Action::Close { registered: true }));
}

#[test]
fn other_messages_are_passed_over() {
    let mut connection = opened();
    for incoming in [Incoming::Pong, Incoming::BadText, Incoming::Other, Incoming::Garbled] {
        assert!(matches!(step(&mut connection, Event::Incoming(incoming)), Action::Receive));
        assert_eq!(connection.phase(), Phase::Receiving);
    }
}

#[test]
fn an_idle_connection_is_checked() {
    let mut connection = opened();
    assert!(matches!(step(&mut connection, Event::Incoming(Incoming::Nothing)), Action::Check));
    assert!(matches!(step(&mut connection, Event::Checked(Delivery::Sent)), Action::Receive));
    for delivery in [Delivery::Failed, Delivery::TimedOut] {
        let mut connection = opened();
        step(&mut connection, Event::Incoming(Incoming::Nothing));
        let action = step(&mut connection, Event::Checked(delivery));
        assert!(matches!(action, Action::Close { registered: true }));
    }
}

#[test]
fn a_request_is_served_and_answered() {
    let mut connection = opened();
    let text = "{\"command\":\"get_devices\"}".to_string();
    let action = step(&mut connection, Event::Incoming(Incoming::Text(text.clone())));
    assert!(matches!(action, Action::Decode(t) if t == text));
    let action = step(&mut connection, Event::Decoded(Ok(ApiRequest::GetDevices)));
    assert!(matches!(action, Action::Serve(DeviceCall::DeviceInfo)));
    let answer = ApiResponse::Devices { devices: vec![] };
    let action = step(&mut connection, Event::Answered(Some(answer)));
    assert!(matches!(action, Action::Respond(ApiResponse::Devices { .. })));
    assert!(matches!(step(&mut connection, Event::Responded(Delivery::Sent)), Action::Receive));
    assert_eq!(connection.phase(), Phase::Receiving);
}

#[test]
fn an_invalid_request_is_answered() {
    let mut connection = opened();
    step(&mut connection, Event::Incoming(Incoming::Text("{".to_string())));
    let action = step(&mut connection, Event::Decoded(Err("EOF".to_string())));
    assert_eq!(error_of(action), "无效的请求格式: EOF");
    assert!(matches!(step(&mut connection, Event::Unwritable), Action::Receive));
    assert_eq!(connection.phase(), Phase::Receiving);
}

#[test]
fn a_request_that_takes_too_long_is_answered() {
    let mut connection = opened();
    step(&mut connection, Event::Incoming(Incoming::Text("x".to_string())));
    step(&mut connection, Event::Decoded(Ok(ApiRequest::GetDevices)));
    let action = step(&mut connection, Event::Answered(None));
    assert_eq!(error_of(action), "请求处理超时，请稍后重试");
    let action = step(&mut connection, Event::Responded(Delivery::Failed));
    assert!(matches!(action, Action::Close { registered: true }));
}

#[test]
fn a_heartbeat_stops_when_it_is_not_sent() {
    assert!(connection::heartbeat_goes_on(Delivery::Sent));
    assert!(!connection::heartbeat_goes_on(Delivery::Failed));
    assert!(!connection::heartbeat_goes_on(Delivery::TimedOut));
}
