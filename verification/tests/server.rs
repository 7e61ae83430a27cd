use std::time::Duration;

use miai::clients::{self, Outcome};
use miai::config::{self, Choice, Config};
use miai::json::Json;
use miai::server::{
    self, Admission, Connections, ServeEvent, ServeStep, WatchEvent, WatchStep,
};
use miai::DeviceInfo;

fn config() -> Config {
    Config {
        username: "someone".to_string(),
        password: "password".to_string(),
        ws_port: config::default_ws_port(),
        check: true,
        device_id: "id".to_string(),
        hardware: "LX06".to_string(),
        max_connections: config::default_max_connections(),
        handshake_timeout: config::default_handshake_timeout(),
        message_timeout: config::default_message_timeout(),
        heartbeat_interval: config::default_heartbeat_interval(),
        idle_timeout: config::default_idle_timeout(),
        watcher_config: Json::object(),
    }
}

fn device(device_id: &str, name: &str, hardware: &str) -> DeviceInfo {
    DeviceInfo {
        device_id: device_id.to_string(),
        name: name.to_string(),
        hardware: hardware.to_string(),
    }
}

#[test]
fn gone_clients_are_removed() {
    let mut clients = vec!["a", "b", "c", "d", "e"];
    let outcomes = vec![Outcome::Failed, Outcome::Sent, Outcome::Failed, Outcome::Sent];
    clients::remove_gone(&mut clients, &outcomes);
    assert_eq!(clients, vec!["b", "d", "e"]);
}

#[test]
fn fewer_clients_than_outcomes() {
    let mut clients = vec!["a", "b"];
    let outcomes = vec![Outcome::Sent, Outcome::Failed, Outcome::Failed, Outcome::Failed];
    clients::remove_gone(&mut clients, &outcomes);
    assert_eq!(clients, vec!["a"]);
    clients::remove_gone(&mut clients, &vec![]);
    assert_eq!(clients, vec!["a"]);
}

#[test]
fn a_broadcast_reaches_every_client_once() {
    let sendings = clients::broadcast(3, "news");
    let told: Vec<(usize, &str)> = sendings.iter().map(|s| (s.client, s.text.as_str())).collect();
    assert_eq!(told, vec![(0, "news"), (1, "news"), (2, "news")]);
    assert!(clients::broadcast(0, "news").is_empty());
    let mut clients = vec!["a", "b", "c"];
    clients::remove_gone(&mut clients, &vec![Outcome::Sent, Outcome::Sent, Outcome::Sent]);
    assert_eq!(clients, vec!["a", "b", "c"]);
}

#[test]
fn only_a_port_that_cannot_be_bound_stops_the_server() {
    assert_eq!(server::keep_serving(ServeEvent::Bound), ServeStep::Accept);
    assert_eq!(server::keep_serving(ServeEvent::Arrived), ServeStep::Accept);
    let again = ServeStep::AcceptAfter { millis: 50 };
    assert_eq!(server::keep_serving(ServeEvent::NotAccepted), again);
    assert_eq!(server::keep_serving(ServeEvent::NotBound), ServeStep::Fail);
}

#[test]
fn connections_are_bounded() {
    let mut connections = Connections::new(2);
    assert!(connections.has_room());
    assert_eq!(connections.decide(true), Admission::Admitted);
    assert_eq!(connections.decide(false), Admission::NoPermit);
    assert_eq!(connections.count(), 1);
    assert_eq!(connections.decide(true), Admission::Admitted);
    assert!(!connections.has_room());
    assert_eq!(connections.decide(true), Admission::Full);
    assert_eq!(connections.count(), 2);
    connections.finish();
    assert_eq!(connections.count(), 1);
    assert_eq!(connections.decide(true), Admission::Admitted);
    assert_eq!(Connections::new(0).decide(true), Admission::Full);
}

#[test]
fn watching_goes_on() {
    assert_eq!(server::keep_watching(WatchEvent::Loaded), WatchStep::Watch);
    assert_eq!(server::keep_watching(WatchEvent::NotLoaded), WatchStep::Reload { secs: 5 });
    assert_eq!(server::keep_watching(WatchEvent::Broken), WatchStep::Reload { secs: 10 });
    assert_eq!(server::keep_watching(WatchEvent::Ended), WatchStep::Exit);
}

#[test]
fn the_server_is_configured() {
    let ws_config = config().to_ws_config();
    assert_eq!(ws_config.port, 8080);
    assert_eq!(ws_config.max_connections, 100);
    assert_eq!(ws_config.handshake_timeout, Duration::from_secs(10));
    assert_eq!(ws_config.message_timeout, Duration::from_secs(30));
    assert_eq!(ws_config.heartbeat_interval, Duration::from_secs(30));
    assert_eq!(ws_config.idle_timeout, Duration::from_secs(300));
    assert_eq!(ws_config.idle_timeout.as_nanos(), 300_000_000_000);
}

#[test]
fn credentials_are_complete_or_asked_for() {
    assert!(config().has_credentials());
    let mut incomplete = config();
    incomplete.username = String::new();
    assert!(!incomplete.has_credentials());
    let mut incomplete = config();
    incomplete.password = String::new();
    assert!(!incomplete.has_credentials());
}

#[test]
fn the_target_is_configured_or_the_first_device() {
    let target = config().target().unwrap();
    assert_eq!((target.device_id.as_str(), target.hardware.as_str()), ("id", "LX06"));
    let mut incomplete = config();
    incomplete.hardware = String::new();
    assert!(incomplete.target().is_none());
    let devices = vec![device("1", "a", "L05C"), device("2", "b", "L06A")];
    let target = config::first_target(&devices).unwrap();
    assert_eq!((target.device_id.as_str(), target.hardware.as_str()), ("1", "L05C"));
    let message = "无可用设备，需要在小米音箱 APP 中绑定";
    assert_eq!(config::first_target(&vec![]).unwrap_err(), message);
    let none = config::no_target();
    assert_eq!((none.device_id.as_str(), none.hardware.as_str()), ("", ""));
}

#[test]
fn the_only_device_is_chosen() {
    let one = vec![device("1", "a", "L05C")];
    assert!(matches!(config::choose_device(&one), Ok(Choice::Device(id)) if id == "1"));
    let two = vec![device("1", "a", "L05C"), device("2", "b", "L06A")];
    assert!(matches!(config::choose_device(&two), Ok(Choice::Ask)));
    let message = "无可用设备，需要在小米音箱 APP 中绑定";
    assert_eq!(config::choose_device(&vec![]).unwrap_err(), message);
}

#[test]
fn devices_are_looked_up() {
    let devices = vec![device("1", "a", "L05C"), device("2", "b", "L06A")];
    assert_eq!(config::look_up(&devices, "2"), ("L06A".to_string(), "b".to_string()));
    assert_eq!(config::look_up(&devices, "3"), ("LX06".to_string(), "未知".to_string()));
}
