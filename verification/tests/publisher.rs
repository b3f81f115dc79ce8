use ha_gpio_mqtt::config::{Config, ConfigGpio, ConfigGpioPull, ConfigHomeAssistant, ConfigMqtt, Error};
use ha_gpio_mqtt::ha_mqtt::{
    discovery_topic, is_birth_payload, state_payload, state_topic, BrokerEvent, HaMqtt, HaMqttAction,
    HaMqttConfigPayload, HaMqttControlMessage, HaMqttInput, HaMqttQos, Publication, KEEP_ALIVE_SECONDS,
    REQUEST_CAPACITY,
};

fn sensor(number: u8, entity_id: &str, name: &str, device_class: Option<&str>) -> ConfigGpio {
    ConfigGpio {
        entity_id: String::from(entity_id),
        name: String::from(name),
        device_class: device_class.map(String::from),
        pin: number,
        inverted: false,
        pull: ConfigGpioPull::Up,
    }
}

fn settings(gpio: Vec<ConfigGpio>) -> Config {
    Config {
        mqtt: ConfigMqtt {
            hostname: String::from("localhost"),
            port: 1883,
            username: String::from("user"),
            password: String::from("pass"),
            client_id: String::from("bridge"),
        },
        homeassistant: ConfigHomeAssistant {
            discovery_prefix: String::from("homeassistant"),
            birth_topic: String::from("homeassistant/status"),
            state_prefix: String::from("gpio"),
            device_name: String::from("pi"),
        },
        gpio,
    }
}

fn two_sensors() -> Config {
    settings(vec![
        sensor(17, "front_door", "Front Door", Some("door")),
        sensor(27, "mailbox", "Mailbox", None),
    ])
}

fn published(action: HaMqttAction) -> Vec<Publication> {
    match action {
        HaMqttAction::Publish(list) => list,
        other => panic!("expected publications, got {:?}", other),
    }
}

fn texts(list: &[Publication]) -> Vec<(String, String, bool)> {
    list.iter().map(|p| (p.topic.clone(), p.payload.clone(), p.retain)).collect()
}

fn birth() -> BrokerEvent {
    BrokerEvent::Publish { topic: String::from("homeassistant/status"), payload: b"online".to_vec() }
}

const FRONT_DOOR: &str = "{\"name\":\"Front Door\",\"device_class\":\"door\",\"state_topic\":\"gpio/binary_sensor/pi/front_door/state\",\"unique_id\":\"front_door\"}";
const MAILBOX: &str = "{\"name\":\"Mailbox\",\"device_class\":null,\"state_topic\":\"gpio/binary_sensor/pi/mailbox/state\",\"unique_id\":\"mailbox\"}";

#[test]
fn defaults_of_the_home_assistant_section() {
    assert_eq!(ConfigHomeAssistant::default_discovery_prefix(), "homeassistant");
    assert_eq!(ConfigHomeAssistant::default_state_prefix(), "gpio");
    assert_eq!(ConfigHomeAssistant::default_birth_topic(), "homeassistant/status");
}

#[test]
fn an_error_carries_its_message() {
    let error = Error { message: String::from("no such file") };
    assert_eq!(error.message, "no such file");
}

#[test]
fn topics_are_built_from_prefix_device_and_entity() {
    assert_eq!(state_topic("gpio", "pi", "front_door"), "gpio/binary_sensor/pi/front_door/state");
    assert_eq!(
        discovery_topic("homeassistant", "pi", "front_door"),
        "homeassistant/binary_sensor/pi/front_door/config"
    );
    assert_eq!(state_topic("", "", ""), "/binary_sensor///state");
}

#[test]
fn state_payload_is_on_or_off() {
    assert_eq!(state_payload(true), "ON");
    assert_eq!(state_payload(false), "OFF");
}

#[test]
fn discovery_document_has_four_members_in_order() {
    let payload = HaMqttConfigPayload {
        name: String::from("Front Door"),
        device_class: Some(String::from("door")),
        state_topic: String::from("gpio/binary_sensor/pi/front_door/state"),
        unique_id: String::from("front_door"),
    };
    assert_eq!(payload.to_json(), FRONT_DOOR);
}

#[test]
fn discovery_document_writes_a_missing_class_as_null() {
    let payload = HaMqttConfigPayload {
        name: String::from("Mailbox"),
        device_class: None,
        state_topic: String::from("gpio/binary_sensor/pi/mailbox/state"),
        unique_id: String::from("mailbox"),
    };
    assert_eq!(payload.to_json(), MAILBOX);
}

#[test]
fn discovery_document_escapes_its_strings() {
    let payload = HaMqttConfigPayload {
        name: String::from("Back \"yard\" \\ gate\n"),
        device_class: Some(String::from("a\tb")),
        state_topic: String::from("s"),
        unique_id: String::from("u"),
    };
    assert_eq!(
        payload.to_json(),
        "{\"name\":\"Back \\\"yard\\\" \\\\ gate\\n\",\"device_class\":\"a\\tb\",\"state_topic\":\"s\",\"unique_id\":\"u\"}"
    );
}

#[test]
fn assemble_puts_the_values_in_as_they_are() {
    assert_eq!(
        HaMqttConfigPayload::assemble("1", "2", "3", "4"),
        "{\"name\":1,\"device_class\":2,\"state_topic\":3,\"unique_id\":4}"
    );
}

#[test]
fn birth_payload_is_exactly_online() {
    assert!(is_birth_payload(b"online"));
    assert!(is_birth_payload("online".as_bytes()));
    assert!(!is_birth_payload(b"offline"));
    assert!(!is_birth_payload(b"Online"));
    assert!(!is_birth_payload(b"online "));
    assert!(!is_birth_payload(b"onlin"));
    assert!(!is_birth_payload(b""));
    assert!(!is_birth_payload(&[0xff, 0xfe, 0x6c, 0x69, 0x6e, 0x65]));
}

#[test]
fn first_step_publishes_the_discovery_set() {
    let mut publisher = HaMqtt::start(&two_sensors());
    assert_eq!(publisher.birth_topic(), "homeassistant/status");
    let list = published(publisher.step());
    assert_eq!(
        texts(&list),
        vec![
            (String::from("homeassistant/binary_sensor/pi/front_door/config"), String::from(FRONT_DOOR), true),
            (String::from("homeassistant/binary_sensor/pi/mailbox/config"), String::from(MAILBOX), true),
        ]
    );
    for publication in &list {
        assert_eq!(publication.qos, HaMqttQos::AtLeastOnce);
    }
    assert!(matches!(publisher.step(), HaMqttAction::Wait));
}

#[test]
fn pin_change_publishes_on_or_off_unretained() {
    let mut publisher = HaMqtt::start(&two_sensors());
    publisher.step();
    publisher.pin_changed(17, true);
    publisher.pin_changed(27, false);
    let first = published(publisher.step());
    assert_eq!(
        texts(&first),
        vec![(String::from("gpio/binary_sensor/pi/front_door/state"), String::from("ON"), false)]
    );
    assert_eq!(first[0].qos, HaMqttQos::AtLeastOnce);
    let second = published(publisher.step());
    assert_eq!(
        texts(&second),
        vec![(String::from("gpio/binary_sensor/pi/mailbox/state"), String::from("OFF"), false)]
    );
    assert!(matches!(publisher.step(), HaMqttAction::Wait));
}

#[test]
fn change_of_an_unknown_pin_publishes_nothing() {
    let mut publisher = HaMqtt::start(&two_sensors());
    publisher.step();
    publisher.pin_changed(99, true);
    assert!(published(publisher.step()).is_empty());
    assert!(publisher.state_messages(99, false).is_empty());
}

#[test]
fn two_changes_of_one_pin_are_published_in_order() {
    let mut publisher = HaMqtt::start(&two_sensors());
    publisher.step();
    publisher.pin_changed(17, true);
    publisher.pin_changed(17, false);
    assert_eq!(published(publisher.step())[0].payload, "ON");
    assert_eq!(published(publisher.step())[0].payload, "OFF");
}

#[test]
fn changes_handed_in_before_the_first_step_wait_for_discovery() {
    let mut publisher = HaMqtt::start(&two_sensors());
    publisher.pin_changed(17, true);
    assert_eq!(published(publisher.step()).len(), 2);
    assert_eq!(published(publisher.step())[0].payload, "ON");
}

#[test]
fn birth_message_republishes_the_discovery_set() {
    let mut publisher = HaMqtt::start(&two_sensors());
    let initial = texts(&published(publisher.step()));
    publisher.connection_event(&birth());
    let again = texts(&published(publisher.step()));
    assert_eq!(again, initial);
    assert_eq!(again.len(), 2);
    assert!(matches!(publisher.step(), HaMqttAction::Wait));
}

#[test]
fn other_payloads_and_topics_are_ignored() {
    let mut publisher = HaMqtt::start(&two_sensors());
    publisher.step();
    publisher.connection_event(&BrokerEvent::Publish {
        topic: String::from("homeassistant/status"),
        payload: b"offline".to_vec(),
    });
    publisher.connection_event(&BrokerEvent::Publish {
        topic: String::from("homeassistant/status"),
        payload: vec![0xc3, 0x28],
    });
    publisher.connection_event(&BrokerEvent::Publish {
        topic: String::from("somewhere/else"),
        payload: b"online".to_vec(),
    });
    publisher.connection_event(&BrokerEvent::Other);
    assert!(matches!(publisher.step(), HaMqttAction::Wait));
}

#[test]
fn only_a_later_acknowledgment_is_a_reconnect() {
    let mut publisher = HaMqtt::start(&two_sensors());
    let initial = texts(&published(publisher.step()));
    publisher.connection_event(&BrokerEvent::ConnAck);
    assert!(matches!(publisher.step(), HaMqttAction::Wait));
    publisher.connection_event(&BrokerEvent::ConnAck);
    assert_eq!(texts(&published(publisher.step())), initial);
    publisher.connection_event(&BrokerEvent::ConnAck);
    assert_eq!(texts(&published(publisher.step())), initial);
    assert!(matches!(publisher.step(), HaMqttAction::Wait));
}

#[test]
fn resending_any_number_of_times_gives_the_same_set() {
    let mut publisher = HaMqtt::start(&two_sensors());
    let initial = texts(&published(publisher.step()));
    for _ in 0..5 {
        publisher.connection_event(&birth());
    }
    for _ in 0..5 {
        assert_eq!(texts(&published(publisher.step())), initial);
    }
    assert_eq!(texts(&publisher.send_config_messages()), initial);
    assert!(matches!(publisher.step(), HaMqttAction::Wait));
}

#[test]
fn stop_is_taken_in_turn_and_ends_the_worker() {
    let mut publisher = HaMqtt::start(&two_sensors());
    publisher.step();
    publisher.pin_changed(17, true);
    publisher.stop();
    publisher.pin_changed(17, false);
    assert!(publisher.running());
    assert_eq!(published(publisher.step())[0].payload, "ON");
    assert!(matches!(publisher.step(), HaMqttAction::Disconnect));
    assert!(!publisher.running());
    assert!(matches!(publisher.step(), HaMqttAction::Finished));
    publisher.pin_changed(17, true);
    publisher.connection_event(&birth());
    publisher.stop();
    assert!(matches!(publisher.step(), HaMqttAction::Finished));
}

#[test]
fn a_pin_announced_twice_keeps_the_later_entity() {
    let mut publisher = HaMqtt::start(&settings(vec![
        sensor(17, "old", "Old", None),
        sensor(17, "new", "New", Some("window")),
    ]));
    let list = published(publisher.step());
    assert_eq!(list.len(), 1);
    assert_eq!(list[0].topic, "homeassistant/binary_sensor/pi/new/config");
    publisher.pin_changed(17, true);
    assert_eq!(published(publisher.step())[0].topic, "gpio/binary_sensor/pi/new/state");
}

#[test]
fn no_pins_means_an_empty_discovery_set() {
    let mut publisher = HaMqtt::start(&settings(Vec::new()));
    assert!(published(publisher.step()).is_empty());
}

#[test]
fn inputs_are_taken_in_the_order_received() {
    let mut publisher = HaMqtt::start(&two_sensors());
    let initial = texts(&published(publisher.step()));
    publisher.receive(&HaMqttInput::Command(HaMqttControlMessage::PinChanged(27, true)));
    publisher.receive(&HaMqttInput::Broker(birth()));
    publisher.receive(&HaMqttInput::Command(HaMqttControlMessage::ResendConfig));
    publisher.receive(&HaMqttInput::Closed);
    publisher.receive(&HaMqttInput::Command(HaMqttControlMessage::PinChanged(27, false)));
    assert_eq!(
        texts(&published(publisher.step())),
        vec![(String::from("gpio/binary_sensor/pi/mailbox/state"), String::from("ON"), false)]
    );
    assert_eq!(texts(&published(publisher.step())), initial);
    assert_eq!(texts(&published(publisher.step())), initial);
    assert!(matches!(publisher.step(), HaMqttAction::Disconnect));
    assert!(matches!(publisher.step(), HaMqttAction::Finished));
}

#[test]
fn connection_constants() {
    assert_eq!(KEEP_ALIVE_SECONDS, 5);
    assert_eq!(REQUEST_CAPACITY, 10);
}
