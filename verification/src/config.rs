//! The immutable configuration that both engines are started from.

use vstd::prelude::*;
use vstd::string::*;

verus! {

/// A configuration that could not be loaded, with the reason in words.
#[derive(Debug)]
pub struct Error {
    pub message: String,
}

/// The whole configuration: broker, Home Assistant topics and pins.
#[derive(Debug)]
pub struct Config {
    pub mqtt: ConfigMqtt,
    pub homeassistant: ConfigHomeAssistant,
    pub gpio: Vec<ConfigGpio>,
}

/// How to reach the broker.
#[derive(Debug)]
pub struct ConfigMqtt {
    pub hostname: String,
    pub port: u16,
    pub username: String,
    pub password: String,
    pub client_id: String,
}

/// Topic prefixes and the device name under which the sensors are announced.
#[derive(Debug)]
pub struct ConfigHomeAssistant {
    pub discovery_prefix: String,
    pub birth_topic: String,
    pub state_prefix: String,
    pub device_name: String,
}

/// One configured input pin.
#[derive(Debug)]
pub struct ConfigGpio {
    pub entity_id: String,
    pub name: String,
    pub device_class: Option<String>,
    pub pin: u8,
    pub inverted: bool,
    pub pull: ConfigGpioPull,
}

/// The idle-state bias of an input pin.
#[derive(Debug, Clone, Copy, PartialEq, Eq, Structural)]
pub enum ConfigGpioPull {
    Floating,
    Up,
    Down,
}

impl ConfigGpioPull {
    /// The bias of a pin whose configuration names none: pulled up.
    pub fn default() -> (pull: Self)
        ensures
            pull == ConfigGpioPull::Up,
    {
        ConfigGpioPull::Up
    }
}

impl ConfigHomeAssistant {
    /// The discovery prefix used when the configuration names none.
    pub fn default_discovery_prefix() -> (prefix: String)
        ensures
            prefix@ == "homeassistant"@,
    {
        String::from_str("homeassistant")
    }

    /// The state prefix used when the configuration names none.
    pub fn default_state_prefix() -> (prefix: String)
        ensures
            prefix@ == "gpio"@,
    {
        String::from_str("gpio")
    }

    /// The birth topic used when the configuration names none.
    pub fn default_birth_topic() -> (topic: String)
        ensures
            topic@ == "homeassistant/status"@,
    {
        String::from_str("homeassistant/status")
    }
}

} // verus!
