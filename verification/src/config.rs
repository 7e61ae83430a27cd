//! The configuration of the program, and the devices that it is for.

use std::time::Duration;

use vstd::prelude::*;

use crate::json::Json;
use crate::records::{DeviceInfo, DeviceView};
use crate::server;
use crate::server::WsConfig;

verus! {

/// The port that the server listens on where nothing else is said.
pub fn default_ws_port() -> (r: u16)
    ensures
        r == 8080,
{
    8080
}

/// How many connections are served at a time where nothing else is said.
pub fn default_max_connections() -> (r: usize)
    ensures
        r == 100,
{
    100
}

/// How long a handshake may take where nothing else is said, in seconds.
pub fn default_handshake_timeout() -> (r: u64)
    ensures
        r == 10,
{
    10
}

/// How long a request may take where nothing else is said, in seconds.
pub fn default_message_timeout() -> (r: u64)
    ensures
        r == 30,
{
    30
}

/// How often a ping is sent where nothing else is said, in seconds.
pub fn default_heartbeat_interval() -> (r: u64)
    ensures
        r == 30,
{
    30
}

/// How long a client may be idle where nothing else is said, in seconds.
pub fn default_idle_timeout() -> (r: u64)
    ensures
        r == 300,
{
    300
}

/// The configuration of the program.
#[derive(Clone, Debug)]
pub struct Config {
    /// Who logs in.
    pub username: String,
    /// The password.
    pub password: String,
    /// The port that the server listens on.
    pub ws_port: u16,
    /// Whether to watch for keywords.
    pub check: bool,
    /// The device to watch.
    pub device_id: String,
    /// The model of that device.
    pub hardware: String,
    /// How many connections are served at a time.
    pub max_connections: usize,
    /// How long a handshake may take, in seconds.
    pub handshake_timeout: u64,
    /// How long a request may take, in seconds.
    pub message_timeout: u64,
    /// How often a ping is sent, in seconds.
    pub heartbeat_interval: u64,
    /// How long a client may be idle, in seconds.
    pub idle_timeout: u64,
    /// The members that are left for the watcher.
    pub watcher_config: Json,
}

/// A device to watch.
#[derive(Debug)]
pub struct Target {
    /// The ID of the device.
    pub device_id: String,
    /// The model of the device.
    pub hardware: String,
}

/// The content of a [`Target`].
pub struct TargetView {
    pub device_id: Seq<char>,
    pub hardware: Seq<char>,
}

impl View for Target {
    type V = TargetView;

    open spec fn view(&self) -> TargetView {
        TargetView { device_id: self.device_id@, hardware: self.hardware@ }
    }
}

/// The contents of some devices, in order.
pub open spec fn device_views(devices: Seq<DeviceInfo>) -> Seq<DeviceView> {
    devices.map_values(|device: DeviceInfo| device@)
}

fn is_empty(text: &String) -> (r: bool)
    ensures
        r == (text@.len() == 0),
{
    text.as_str().unicode_len() == 0
}

impl Config {
    /// The part of the configuration that is for the server.
    pub fn to_ws_config(&self) -> (r: WsConfig)
        ensures
            r.port == self.ws_port,
            r.max_connections == self.max_connections,
            server::nanos_of(r.handshake_timeout) == self.handshake_timeout * 1_000_000_000,
            server::nanos_of(r.message_timeout) == self.message_timeout * 1_000_000_000,
            server::nanos_of(r.heartbeat_interval) == self.heartbeat_interval * 1_000_000_000,
            server::nanos_of(r.idle_timeout) == self.idle_timeout * 1_000_000_000,
    {
        WsConfig {
            port: self.ws_port,
            max_connections: self.max_connections,
            handshake_timeout: Duration::from_secs(self.handshake_timeout),
            message_timeout: Duration::from_secs(self.message_timeout),
            heartbeat_interval: Duration::from_secs(self.heartbeat_interval),
            idle_timeout: Duration::from_secs(self.idle_timeout),
        }
    }

    /// Whether the configuration tells who logs in. Else the user is asked.
    pub fn has_credentials(&self) -> (r: bool)
        ensures
            r == (self.username@.len() > 0 && self.password@.len() > 0),
    {
        !is_empty(&self.username) && !is_empty(&self.password)
    }

    /// The device to watch, if the configuration tells both it and its model. Else the devices of
    /// the account are asked for.
    pub fn target(&self) -> (r: Option<Target>)
        ensures
            match r {
                Some(target) => self.device_id@.len() > 0 && self.hardware@.len() > 0 && target@
                    == (TargetView { device_id: self.device_id@, hardware: self.hardware@ })
                    && target.device_id@ == self.device_id@ && target.hardware@ == self.hardware@,
                None => self.device_id@.len() == 0 || self.hardware@.len() == 0,
            },
    {
        if !is_empty(&self.device_id) && !is_empty(&self.hardware) {
            Some(Target { device_id: self.device_id.clone(), hardware: self.hardware.clone() })
        } else {
            None
        }
    }
}

/// The message where an account has no devices.
pub const NO_DEVICES: &'static str = "无可用设备，需要在小米音箱 APP 中绑定";

/// The device to watch where the configuration tells none: the first one of the account. An
/// account without devices is an error, told by its message.
pub fn first_target(devices: &Vec<DeviceInfo>) -> (r: Result<Target, String>)
    ensures
        match r {
            Ok(target) => devices@.len() > 0 && target@ == (TargetView {
                device_id: devices@[0].device_id@,
                hardware: devices@[0].hardware@,
            }) && target.device_id@ == devices@[0].device_id@ && target.hardware@
                == devices@[0].hardware@,
            Err(message) => devices@.len() == 0 && message@
                == "无可用设备，需要在小米音箱 APP 中绑定"@,
        },
{
    if devices.len() == 0 {
        Err(NO_DEVICES.to_owned())
    } else {
        Ok(
            Target {
                device_id: devices[0].device_id.clone(),
                hardware: devices[0].hardware.clone(),
            },
        )
    }
}

/// The target to use where none could be told: the server starts nevertheless.
pub fn no_target() -> (r: Target)
    ensures
        r@ == (TargetView { device_id: Seq::empty(), hardware: Seq::empty() }),
        r.device_id@.len() == 0,
        r.hardware@.len() == 0,
{
    Target { device_id: String::new(), hardware: String::new() }
}

/// Which device a command is for.
#[derive(Debug)]
pub enum Choice {
    /// The device of this ID.
    Device(String),
    /// One of several devices: the user chooses.
    Ask,
}

/// Chooses the device of a command among those of the account: the only one is taken by itself,
/// and among several the user chooses. An account without devices is an error, told by its
/// message.
pub fn choose_device(devices: &Vec<DeviceInfo>) -> (r: Result<Choice, String>)
    ensures
        match r {
            Ok(Choice::Device(device_id)) => devices@.len() == 1 && device_id@
                == devices@[0].device_id@,
            Ok(Choice::Ask) => devices@.len() > 1,
            Err(message) => devices@.len() == 0 && message@
                == "无可用设备，需要在小米音箱 APP 中绑定"@,
        },
{
    if devices.len() == 0 {
        Err(NO_DEVICES.to_owned())
    } else if devices.len() == 1 {
        Ok(Choice::Device(devices[0].device_id.clone()))
    } else {
        Ok(Choice::Ask)
    }
}

/// The model and the name of the device of an ID. A device that is not among those of the account
/// is taken for an LX06 of unknown name.
pub open spec fn known_as(devices: Seq<DeviceView>, device_id: Seq<char>) -> (
    Seq<char>,
    Seq<char>,
)
    decreases devices.len(),
{
    if devices.len() == 0 {
        ("LX06"@, "未知"@)
    } else if devices[0].device_id == device_id {
        (devices[0].hardware, devices[0].name)
    } else {
        known_as(devices.drop_first(), device_id)
    }
}

/// The model and the name of the device of an ID. A device that is not among those of the account
/// is taken for an LX06 of unknown name.
pub fn look_up(devices: &Vec<DeviceInfo>, device_id: &str) -> (r: (String, String))
    ensures
        (r.0@, r.1@) == known_as(device_views(devices@), device_id@),
        (exists|i: int| 0 <= i < devices@.len() && (#[trigger] devices@[i]).device_id@
            == device_id@) ==> exists|i: int|
            {
                &&& 0 <= i < devices@.len()
                &&& (#[trigger] devices@[i]).device_id@ == device_id@
                &&& r.0@ == devices@[i].hardware@
                &&& r.1@ == devices@[i].name@
            },
        (forall|i: int| 0 <= i < devices@.len() ==> (#[trigger] devices@[i]).device_id@
            != device_id@) ==> r.0@ == "LX06"@ && r.1@ == "未知"@,
{
    let ghost all = device_views(devices@);
    let wanted: String = device_id.to_owned();
    assert(all.skip(0) =~= all);
    for i in 0..devices.len()
        invariant
            all == device_views(devices@),
            wanted@ == device_id@,
            known_as(all, device_id@) == known_as(all.skip(i as int), device_id@),
            forall|j: int| 0 <= j < i ==> (#[trigger] devices@[j]).device_id@ != device_id@,
    {
        assert(all.skip(i as int)[0] == devices[i as int]@);
        assert(all.skip(i as int).drop_first() =~= all.skip(i + 1));
        if devices[i].device_id == wanted {
            return (devices[i].hardware.clone(), devices[i].name.clone());
        }
    }
    ("LX06".to_owned(), "未知".to_owned())
}

/// The first device of an ID tells its model and its name, whatever devices come behind it; where
/// no device has the ID, the model is LX06 and the name unknown.
pub proof fn law_first_device_of_an_id_counts(
    devices: Seq<DeviceView>,
    device_id: Seq<char>,
    at: int,
)
    ensures
        0 <= at < devices.len() && devices[at].device_id == device_id && (forall|i: int|
            0 <= i < at ==> (#[trigger] devices[i]).device_id != device_id) ==> known_as(
            devices,
            device_id,
        ) == (devices[at].hardware, devices[at].name),
        (forall|i: int| 0 <= i < devices.len() ==> (#[trigger] devices[i]).device_id != device_id)
            ==> known_as(devices, device_id) == ("LX06"@, "未知"@),
    decreases devices.len(),
{
    if devices.len() > 0 && devices[0].device_id != device_id {
        let rest = devices.drop_first();
        assert forall|i: int| 0 <= i < rest.len() implies #[trigger] rest[i] == devices[i + 1] by {}
        if 0 < at < devices.len() {
            assert(rest[at - 1] == devices[at]);
        }
        law_first_device_of_an_id_counts(rest, device_id, at - 1);
    }
}

/// The contents of a list of devices are those of its devices, in order.
pub proof fn law_devices_content(devices: Seq<DeviceInfo>, i: int)
    ensures
        device_views(devices).len() == devices.len(),
        0 <= i < devices.len() ==> device_views(devices)[i].device_id == devices[i].device_id@
            && device_views(devices)[i].name == devices[i].name@ && device_views(
            devices,
        )[i].hardware == devices[i].hardware@,
{
}

} // verus!
