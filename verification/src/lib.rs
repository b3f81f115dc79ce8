//! Bridge between digital input pins and a Home Assistant MQTT broker.
//!
//! The crate holds the decision logic of the two engines of the bridge: the
//! pin watcher, which turns raw electrical transitions into semantic level
//! events, and the publisher, which turns those events and the broker's
//! connection signals into MQTT publications. Hardware access, the broker
//! connection and the threads that drive both engines live outside.

pub mod bridge;
pub mod config;
pub mod gpio_watcher;
pub mod ha_mqtt;
pub mod pin_table;
