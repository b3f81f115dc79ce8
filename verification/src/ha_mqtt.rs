//! The publisher: discovery and state publications for Home Assistant.
//!
//! `HaMqtt` is the publisher's whole state: the table of announced pins, the
//! topic prefixes, the queue of commands and the connection phase. The code
//! that owns the broker connection hands over what the broker sent and
//! performs what `step` asks for; which topics and payloads go out, and in
//! what order, is decided here.

use vstd::prelude::*;
use vstd::string::*;
use crate::config::{Config, ConfigGpio};
use crate::pin_table::{distinct_pins, find_pin, has_pin, slot_of, table_of, PinRow};

verus! {

/// The JSON text of a string value, as `serde_json::to_string` writes it
/// for a `str`: the string in double quotes, with its escapes.
pub uninterp spec fn json_string(text: Seq<char>) -> Seq<char>;

/// Calls `serde_json::to_string` on a `str`. For a `str` the call writes
/// into a byte vector and has no way to fail, so it always hands back a
/// text; that text depends on the argument alone, and `json_string` is
/// the name for it.
#[verifier::external_body]
fn json_string_of(text: &str) -> (quoted: Option<String>)
    ensures
        quoted.is_some(),
        quoted matches Some(q) ==> q@ == json_string(text@),
{
    serde_json::to_string(text).ok()
}

/// The keep-alive interval of the broker connection, in seconds.
pub const KEEP_ALIVE_SECONDS: u64 = 5;

/// How many requests to the broker may be pending at once.
pub const REQUEST_CAPACITY: usize = 10;

/// A command to the publisher's worker.
#[derive(Debug, Clone, Copy, PartialEq, Eq, Structural)]
pub enum HaMqttControlMessage {
    Stop,
    PinChanged(u8, bool),
    ResendConfig,
}

/// The delivery guarantee asked of the broker for a publication.
#[derive(Debug, Clone, Copy, PartialEq, Eq, Structural)]
pub enum HaMqttQos {
    AtMostOnce,
    AtLeastOnce,
    ExactlyOnce,
}

/// Whether a connection acknowledgment has been seen before.
#[derive(Debug, Clone, Copy, PartialEq, Eq, Structural)]
pub enum ConnectionPhase {
    FirstConnect,
    Reconnected,
}

/// Where the worker stands: before the first discovery set went out, in
/// the command loop, or gone.
#[derive(Debug, Clone, Copy, PartialEq, Eq, Structural)]
pub enum HaMqttPhase {
    Starting,
    Running,
    Stopped,
}

/// What the publisher announces of one pin.
#[derive(Debug)]
pub struct HaMqttPinInfo {
    pub pin: u8,
    pub entity_id: String,
    pub name: String,
    pub device_class: Option<String>,
}

/// The discovery document of one sensor.
#[derive(Debug)]
pub struct HaMqttConfigPayload {
    pub name: String,
    pub device_class: Option<String>,
    pub state_topic: String,
    pub unique_id: String,
}

/// One message for the broker.
#[derive(Debug)]
pub struct Publication {
    pub topic: String,
    pub payload: String,
    pub qos: HaMqttQos,
    pub retain: bool,
}

/// A publication as a value.
pub struct PublicationView {
    pub topic: Seq<char>,
    pub payload: Seq<char>,
    pub qos: HaMqttQos,
    pub retain: bool,
}

impl View for Publication {
    type V = PublicationView;

    open spec fn view(&self) -> PublicationView {
        PublicationView { topic: self.topic@, payload: self.payload@, qos: self.qos, retain: self.retain }
    }
}

/// What the connection's event stream delivered.
#[derive(Debug)]
pub enum BrokerEvent {
    Publish { topic: String, payload: Vec<u8> },
    ConnAck,
    Other,
}

/// What reached the worker while it waited.
#[derive(Debug)]
pub enum HaMqttInput {
    /// A command, from the owner or from the worker's own listener.
    Command(HaMqttControlMessage),
    /// Something that the connection's event stream delivered.
    Broker(BrokerEvent),
    /// Nobody is left who could send a command.
    Closed,
}

/// What the worker has to do next.
#[derive(Debug)]
pub enum HaMqttAction {
    /// Nothing is queued: wait for a command.
    Wait,
    /// Send these, in this order.
    Publish(Vec<Publication>),
    /// Close the connection.
    Disconnect,
    /// The worker has stopped; there is nothing left to do.
    Finished,
}

/// An action as a value.
pub enum HaMqttActionView {
    Wait,
    Publish(Seq<PublicationView>),
    Disconnect,
    Finished,
}

/// The publications of a list, as values.
pub open spec fn publication_views(list: Seq<Publication>) -> Seq<PublicationView> {
    list.map_values(|p: Publication| p@)
}

impl View for HaMqttAction {
    type V = HaMqttActionView;

    open spec fn view(&self) -> HaMqttActionView {
        match self {
            HaMqttAction::Wait => HaMqttActionView::Wait,
            HaMqttAction::Publish(list) => HaMqttActionView::Publish(publication_views(list@)),
            HaMqttAction::Disconnect => HaMqttActionView::Disconnect,
            HaMqttAction::Finished => HaMqttActionView::Finished,
        }
    }
}

/// The topic prefixes and the device name that every topic is built from.
pub struct HaMqttTopics {
    pub discovery_prefix: Seq<char>,
    pub state_prefix: Seq<char>,
    pub device_name: Seq<char>,
}

/// `{state_prefix}/binary_sensor/{device_name}/{entity_id}/state`
pub open spec fn state_topic_of(state_prefix: Seq<char>, device_name: Seq<char>, entity_id: Seq<char>) -> Seq<
    char,
> {
    state_prefix + "/binary_sensor/"@ + device_name + "/"@ + entity_id + "/state"@
}

/// `{discovery_prefix}/binary_sensor/{device_name}/{entity_id}/config`
pub open spec fn discovery_topic_of(
    discovery_prefix: Seq<char>,
    device_name: Seq<char>,
    entity_id: Seq<char>,
) -> Seq<char> {
    discovery_prefix + "/binary_sensor/"@ + device_name + "/"@ + entity_id + "/config"@
}

/// `ON` for a pin that is on, `OFF` for one that is off.
pub open spec fn state_payload_of(on: bool) -> Seq<char> {
    if on {
        "ON"@
    } else {
        "OFF"@
    }
}

/// The discovery document around four JSON values: an object with the
/// members `name`, `device_class`, `state_topic` and `unique_id`, in this
/// order and without white space.
pub open spec fn payload_json_of(
    name: Seq<char>,
    device_class: Seq<char>,
    state_topic: Seq<char>,
    unique_id: Seq<char>,
) -> Seq<char> {
    "{\"name\":"@ + name + ",\"device_class\":"@ + device_class + ",\"state_topic\":"@ + state_topic
        + ",\"unique_id\":"@ + unique_id + "}"@
}

/// The discovery document of a sensor: each string as its JSON text, a
/// missing device class as `null`.
pub open spec fn discovery_json_of(
    name: Seq<char>,
    device_class: Option<Seq<char>>,
    state_topic: Seq<char>,
    unique_id: Seq<char>,
) -> Seq<char> {
    payload_json_of(
        json_string(name),
        match device_class {
            Some(class) => json_string(class),
            None => "null"@,
        },
        json_string(state_topic),
        json_string(unique_id),
    )
}

/// The view of an optional string.
pub open spec fn text_of(value: Option<String>) -> Option<Seq<char>> {
    match value {
        Some(text) => Some(text@),
        None => None,
    }
}

/// The discovery publication of one pin: retained, at least once, on the
/// pin's discovery topic.
pub open spec fn discovery_of(topics: HaMqttTopics, info: HaMqttPinInfo) -> PublicationView {
    PublicationView {
        topic: discovery_topic_of(topics.discovery_prefix, topics.device_name, info.entity_id@),
        payload: discovery_json_of(
            info.name@,
            text_of(info.device_class),
            state_topic_of(topics.state_prefix, topics.device_name, info.entity_id@),
            info.entity_id@,
        ),
        qos: HaMqttQos::AtLeastOnce,
        retain: true,
    }
}

/// The discovery set of a pin table: the discovery publication of each
/// row, in table order.
pub open spec fn discovery_list(topics: HaMqttTopics, pins: Seq<HaMqttPinInfo>) -> Seq<PublicationView>
    decreases pins.len(),
{
    if pins.len() == 0 {
        Seq::empty()
    } else {
        discovery_list(topics, pins.drop_last()).push(discovery_of(topics, pins.last()))
    }
}

/// The state publication of a pin with this entity id: `ON` or `OFF` on
/// the pin's state topic, at least once, not retained.
pub open spec fn state_of(topics: HaMqttTopics, entity_id: Seq<char>, on: bool) -> PublicationView {
    PublicationView {
        topic: state_topic_of(topics.state_prefix, topics.device_name, entity_id),
        payload: state_payload_of(on),
        qos: HaMqttQos::AtLeastOnce,
        retain: false,
    }
}

/// The row that a configured pin is announced with.
pub open spec fn info_of(io: ConfigGpio) -> HaMqttPinInfo {
    HaMqttPinInfo { pin: io.pin, entity_id: io.entity_id, name: io.name, device_class: io.device_class }
}

impl PinRow for HaMqttPinInfo {
    open spec fn pin_number(&self) -> u8 {
        self.pin
    }

    open spec fn of_config(io: ConfigGpio) -> Self {
        info_of(io)
    }

    fn number(&self) -> (pin: u8) {
        self.pin
    }

    proof fn lemma_of_config_keeps_pin(io: ConfigGpio) {
    }
}

/// The payload of a birth message: the UTF-8 encoding of `online`.
pub open spec fn online_payload() -> Seq<u8> {
    "online".spec_bytes()
}

/// The bytes of a birth message's payload, one by one.
pub proof fn lemma_online_payload_bytes()
    ensures
        online_payload() == seq![111u8, 110u8, 108u8, 105u8, 110u8, 101u8],
{
    reveal_strlit("online");
    assert(is_ascii("online"));
    is_ascii_spec_bytes("online");
    assert(online_payload() =~= seq![111u8, 110u8, 108u8, 105u8, 110u8, 101u8]);
}

/// The publisher as a value.
pub struct HaMqttView {
    pub pins: Seq<HaMqttPinInfo>,
    pub topics: HaMqttTopics,
    pub birth_topic: Seq<char>,
    pub queue: Seq<HaMqttControlMessage>,
    pub connection: ConnectionPhase,
    pub phase: HaMqttPhase,
}

impl HaMqttView {
    /// The table holds each pin number once.
    pub open spec fn wf(self) -> bool {
        distinct_pins(self.pins)
    }

    /// The full discovery set.
    pub open spec fn discovery_set(self) -> Seq<PublicationView> {
        discovery_list(self.topics, self.pins)
    }

    /// What a change of `pin` publishes: the pin's state, or nothing for a
    /// pin that is not configured.
    pub open spec fn state_publications(self, pin: u8, on: bool) -> Seq<PublicationView> {
        if has_pin(self.pins, pin) {
            seq![state_of(self.topics, self.pins[slot_of(self.pins, pin)].entity_id@, on)]
        } else {
            Seq::empty()
        }
    }

    /// The publisher with `message` at the end of its queue; a worker that
    /// has stopped takes no more messages.
    pub open spec fn enqueue(self, message: HaMqttControlMessage) -> Self {
        if self.phase == HaMqttPhase::Stopped {
            self
        } else {
            HaMqttView {
                pins: self.pins,
                topics: self.topics,
                birth_topic: self.birth_topic,
                queue: self.queue.push(message),
                connection: self.connection,
                phase: self.phase,
            }
        }
    }

    /// A state update has been handed in.
    pub open spec fn pin_changed(self, pin: u8, on: bool) -> Self {
        self.enqueue(HaMqttControlMessage::PinChanged(pin, on))
    }

    /// The worker has been asked to stop.
    pub open spec fn stop(self) -> Self {
        self.enqueue(HaMqttControlMessage::Stop)
    }

    /// Whether `event` asks for the discovery set again: a publish on the
    /// birth topic with the payload `online`, or a connection acknowledgment
    /// that is not the first.
    pub open spec fn asks_resend(self, event: BrokerEvent) -> bool {
        match event {
            BrokerEvent::Publish { topic, payload } => topic@ == self.birth_topic && payload@
                == online_payload(),
            BrokerEvent::ConnAck => self.connection == ConnectionPhase::Reconnected,
            BrokerEvent::Other => false,
        }
    }

    /// The connection's event stream delivered `event`.
    pub open spec fn connection_event(self, event: BrokerEvent) -> Self {
        let noted = HaMqttView {
            pins: self.pins,
            topics: self.topics,
            birth_topic: self.birth_topic,
            queue: self.queue,
            connection: if event is ConnAck {
                ConnectionPhase::Reconnected
            } else {
                self.connection
            },
            phase: self.phase,
        };
        if self.asks_resend(event) {
            noted.enqueue(HaMqttControlMessage::ResendConfig)
        } else {
            noted
        }
    }

    /// The worker received `input` while it waited: a command is queued,
    /// an event of the connection is taken note of, and when nobody is left
    /// to send commands the worker is told to stop.
    pub open spec fn received(self, input: HaMqttInput) -> Self {
        match input {
            HaMqttInput::Command(message) => self.enqueue(message),
            HaMqttInput::Broker(event) => self.connection_event(event),
            HaMqttInput::Closed => self.stop(),
        }
    }

    /// What the worker does on taking `message` from the queue.
    pub open spec fn answer(self, message: HaMqttControlMessage) -> HaMqttActionView {
        match message {
            HaMqttControlMessage::PinChanged(pin, on) => HaMqttActionView::Publish(
                self.state_publications(pin, on),
            ),
            HaMqttControlMessage::ResendConfig => HaMqttActionView::Publish(self.discovery_set()),
            HaMqttControlMessage::Stop => HaMqttActionView::Disconnect,
        }
    }

    /// What the worker's next step does.
    pub open spec fn step_action(self) -> HaMqttActionView {
        match self.phase {
            HaMqttPhase::Starting => HaMqttActionView::Publish(self.discovery_set()),
            HaMqttPhase::Running => if self.queue.len() == 0 {
                HaMqttActionView::Wait
            } else {
                self.answer(self.queue[0])
            },
            HaMqttPhase::Stopped => HaMqttActionView::Finished,
        }
    }

    /// The publisher after the worker's next step: the first discovery set
    /// is out, or the oldest command is taken from the queue; with `Stop`
    /// the worker is gone and what was queued behind it is dropped.
    pub open spec fn step(self) -> Self {
        match self.phase {
            HaMqttPhase::Starting => HaMqttView {
                pins: self.pins,
                topics: self.topics,
                birth_topic: self.birth_topic,
                queue: self.queue,
                connection: self.connection,
                phase: HaMqttPhase::Running,
            },
            HaMqttPhase::Running => if self.queue.len() == 0 {
                self
            } else {
                HaMqttView {
                    pins: self.pins,
                    topics: self.topics,
                    birth_topic: self.birth_topic,
                    queue: if self.queue[0] == HaMqttControlMessage::Stop {
                        Seq::empty()
                    } else {
                        self.queue.remove(0)
                    },
                    connection: self.connection,
                    phase: if self.queue[0] == HaMqttControlMessage::Stop {
                        HaMqttPhase::Stopped
                    } else {
                        HaMqttPhase::Running
                    },
                }
            },
            HaMqttPhase::Stopped => self,
        }
    }

    /// The publisher after `n` steps of the worker.
    pub open spec fn after(self, n: nat) -> Self
        decreases n,
    {
        if n == 0 {
            self
        } else {
            self.after((n - 1) as nat).step()
        }
    }

    /// What the worker does in its `n` next steps, in order.
    pub open spec fn actions(self, n: nat) -> Seq<HaMqttActionView>
        decreases n,
    {
        if n == 0 {
            Seq::empty()
        } else {
            self.actions((n - 1) as nat).push(self.after((n - 1) as nat).step_action())
        }
    }
}

/// The publisher: announced pins, topic prefixes, command queue and phases.
pub struct HaMqtt {
    pins: Vec<HaMqttPinInfo>,
    discovery_prefix: String,
    state_prefix: String,
    device_name: String,
    birth_topic: String,
    queue: Vec<HaMqttControlMessage>,
    connection: ConnectionPhase,
    phase: HaMqttPhase,
}

impl View for HaMqtt {
    type V = HaMqttView;

    closed spec fn view(&self) -> HaMqttView {
        HaMqttView {
            pins: self.pins@,
            topics: HaMqttTopics {
                discovery_prefix: self.discovery_prefix@,
                state_prefix: self.state_prefix@,
                device_name: self.device_name@,
            },
            birth_topic: self.birth_topic@,
            queue: self.queue@,
            connection: self.connection,
            phase: self.phase,
        }
    }
}

/// The state topic of an entity.
pub fn state_topic(state_prefix: &str, device_name: &str, entity_id: &str) -> (topic: String)
    ensures
        topic@ == state_topic_of(state_prefix@, device_name@, entity_id@),
{
    let mut topic = String::from_str(state_prefix);
    topic.append("/binary_sensor/");
    topic.append(device_name);
    topic.append("/");
    topic.append(entity_id);
    topic.append("/state");
    topic
}

/// The discovery topic of an entity.
pub fn discovery_topic(discovery_prefix: &str, device_name: &str, entity_id: &str) -> (topic: String)
    ensures
        topic@ == discovery_topic_of(discovery_prefix@, device_name@, entity_id@),
{
    let mut topic = String::from_str(discovery_prefix);
    topic.append("/binary_sensor/");
    topic.append(device_name);
    topic.append("/");
    topic.append(entity_id);
    topic.append("/config");
    topic
}

/// The payload of a state publication.
pub fn state_payload(on: bool) -> (payload: String)
    ensures
        payload@ == state_payload_of(on),
{
    if on {
        String::from_str("ON")
    } else {
        String::from_str("OFF")
    }
}

/// Whether a payload is that of a birth message: exactly `online`.
pub fn is_birth_payload(payload: &[u8]) -> (birth: bool)
    ensures
        birth == (payload@ == online_payload()),
{
    let birth = payload.len() == 6 && payload[0] == 111u8 && payload[1] == 110u8 && payload[2] == 108u8
        && payload[3] == 105u8 && payload[4] == 110u8 && payload[5] == 101u8;
    proof {
        lemma_online_payload_bytes();
        if birth {
            assert(payload@ =~= online_payload());
        }
    }
    birth
}

impl HaMqttConfigPayload {
    /// The discovery document around four JSON values that are already
    /// written: `name`, `device_class`, `state_topic`, `unique_id`.
    pub fn assemble(name: &str, device_class: &str, state_topic: &str, unique_id: &str) -> (document: String)
        ensures
            document@ == payload_json_of(name@, device_class@, state_topic@, unique_id@),
    {
        let mut document = String::from_str("{\"name\":");
        document.append(name);
        document.append(",\"device_class\":");
        document.append(device_class);
        document.append(",\"state_topic\":");
        document.append(state_topic);
        document.append(",\"unique_id\":");
        document.append(unique_id);
        document.append("}");
        document
    }

    /// The discovery document as JSON text.
    pub fn to_json(&self) -> (document: String)
        ensures
            document@ == discovery_json_of(
                self.name@,
                text_of(self.device_class),
                self.state_topic@,
                self.unique_id@,
            ),
    {
        let name = json_string_of(self.name.as_str()).unwrap();
        let device_class = match &self.device_class {
            Some(class) => json_string_of(class.as_str()).unwrap(),
            None => String::from_str("null"),
        };
        let state_topic = json_string_of(self.state_topic.as_str()).unwrap();
        let unique_id = json_string_of(self.unique_id.as_str()).unwrap();
        HaMqttConfigPayload::assemble(
            name.as_str(),
            device_class.as_str(),
            state_topic.as_str(),
            unique_id.as_str(),
        )
    }
}

/// A copy of an optional string.
fn copy_text(value: &Option<String>) -> (copy: Option<String>)
    ensures
        copy == *value,
{
    match value {
        Some(text) => Some(text.clone()),
        None => None,
    }
}

impl HaMqtt {
    /// A publisher for the configured pins and topics: its worker has yet
    /// to send the first discovery set, nothing is queued, and no
    /// connection acknowledgment has been seen.
    pub fn start(config: &Config) -> (publisher: Self)
        ensures
            publisher@.wf(),
            publisher@.pins == table_of::<HaMqttPinInfo>(config.gpio@),
            publisher@.topics == (HaMqttTopics {
                discovery_prefix: config.homeassistant.discovery_prefix@,
                state_prefix: config.homeassistant.state_prefix@,
                device_name: config.homeassistant.device_name@,
            }),
            publisher@.birth_topic == config.homeassistant.birth_topic@,
            publisher@.queue == Seq::<HaMqttControlMessage>::empty(),
            publisher@.connection == ConnectionPhase::FirstConnect,
            publisher@.phase == HaMqttPhase::Starting,
    {
        let mut pins: Vec<HaMqttPinInfo> = Vec::new();
        let mut k: usize = 0;
        while k < config.gpio.len()
            invariant
                k <= config.gpio@.len(),
                pins@ == table_of::<HaMqttPinInfo>(config.gpio@.take(k as int)),
                distinct_pins(pins@),
            decreases config.gpio@.len() - k,
        {
            let io = &config.gpio[k];
            let info = HaMqttPinInfo {
                pin: io.pin,
                entity_id: io.entity_id.clone(),
                name: io.name.clone(),
                device_class: copy_text(&io.device_class),
            };
            proof {
                let next = config.gpio@.take(k + 1);
                assert(next.drop_last() == config.gpio@.take(k as int));
                assert(next.last() == config.gpio@[k as int]);
                assert(info == info_of(next.last()));
            }
            match find_pin(&pins, io.pin) {
                Some(i) => {
                    pins.set(i, info);
                },
                None => {
                    pins.push(info);
                },
            }
            k += 1;
        }
        proof {
            assert(config.gpio@.take(k as int) == config.gpio@);
        }
        HaMqtt {
            pins,
            discovery_prefix: config.homeassistant.discovery_prefix.clone(),
            state_prefix: config.homeassistant.state_prefix.clone(),
            device_name: config.homeassistant.device_name.clone(),
            birth_topic: config.homeassistant.birth_topic.clone(),
            queue: Vec::new(),
            connection: ConnectionPhase::FirstConnect,
            phase: HaMqttPhase::Starting,
        }
    }

    /// The topic that the worker subscribes to for birth messages.
    pub fn birth_topic(&self) -> (topic: String)
        ensures
            topic@ == self@.birth_topic,
    {
        self.birth_topic.clone()
    }

    /// Whether the worker goes on: false once it has taken `Stop`.
    pub fn running(&self) -> (on: bool)
        ensures
            on == (self@.phase != HaMqttPhase::Stopped),
    {
        self.phase != HaMqttPhase::Stopped
    }

    /// The discovery publication of the row at `index`.
    fn discovery_message(&self, index: usize) -> (message: Publication)
        requires
            index < self.pins@.len(),
        ensures
            message@ == discovery_of(self@.topics, self.pins@[index as int]),
    {
        let info = &self.pins[index];
        let payload = HaMqttConfigPayload {
            name: info.name.clone(),
            device_class: copy_text(&info.device_class),
            state_topic: state_topic(
                self.state_prefix.as_str(),
                self.device_name.as_str(),
                info.entity_id.as_str(),
            ),
            unique_id: info.entity_id.clone(),
        };
        Publication {
            topic: discovery_topic(
                self.discovery_prefix.as_str(),
                self.device_name.as_str(),
                info.entity_id.as_str(),
            ),
            payload: payload.to_json(),
            qos: HaMqttQos::AtLeastOnce,
            retain: true,
        }
    }

    /// The full discovery set: one retained publication per announced pin,
    /// in table order, each computed afresh.
    pub fn send_config_messages(&self) -> (messages: Vec<Publication>)
        ensures
            publication_views(messages@) == self@.discovery_set(),
            messages@.len() == self@.pins.len(),
    {
        let mut messages: Vec<Publication> = Vec::new();
        let mut i: usize = 0;
        while i < self.pins.len()
            invariant
                i <= self.pins@.len(),
                messages@.len() == i,
                publication_views(messages@) == discovery_list(self@.topics, self.pins@.take(i as int)),
            decreases self.pins@.len() - i,
        {
            proof {
                let next = self.pins@.take(i + 1);
                assert(next.drop_last() == self.pins@.take(i as int));
                assert(next.last() == self.pins@[i as int]);
            }
            let ghost before = messages@;
            let message = self.discovery_message(i);
            messages.push(message);
            proof {
                assert(publication_views(messages@) == publication_views(before).push(message@));
            }
            i += 1;
        }
        proof {
            assert(self.pins@.take(i as int) == self.pins@);
        }
        messages
    }

    /// What a change of `pin` publishes: `ON` or `OFF` on the pin's state
    /// topic, not retained; nothing for a pin that is not configured.
    pub fn state_messages(&self, pin: u8, on: bool) -> (messages: Vec<Publication>)
        requires
            self@.wf(),
        ensures
            publication_views(messages@) == self@.state_publications(pin, on),
    {
        let mut messages: Vec<Publication> = Vec::new();
        if let Some(i) = find_pin(&self.pins, pin) {
            let message = Publication {
                topic: state_topic(
                    self.state_prefix.as_str(),
                    self.device_name.as_str(),
                    self.pins[i].entity_id.as_str(),
                ),
                payload: state_payload(on),
                qos: HaMqttQos::AtLeastOnce,
                retain: false,
            };
            messages.push(message);
            proof {
                assert(publication_views(messages@) == seq![message@]);
            }
        } else {
            proof {
                assert(publication_views(messages@) == Seq::<PublicationView>::empty());
            }
        }
        messages
    }

    /// Puts `message` at the end of the queue, unless the worker has stopped.
    fn enqueue(&mut self, message: HaMqttControlMessage)
        ensures
            final(self)@ == old(self)@.enqueue(message),
    {
        if self.phase != HaMqttPhase::Stopped {
            self.queue.push(message);
        }
    }

    /// Hands in a state update. It is queued behind what was handed in
    /// before; a worker that has stopped drops it.
    pub fn pin_changed(&mut self, pin: u8, on: bool)
        ensures
            final(self)@ == old(self)@.pin_changed(pin, on),
    {
        self.enqueue(HaMqttControlMessage::PinChanged(pin, on));
    }

    /// Asks the worker to stop. The request is queued behind what was
    /// handed in before.
    pub fn stop(&mut self)
        ensures
            final(self)@ == old(self)@.stop(),
    {
        self.enqueue(HaMqttControlMessage::Stop);
    }

    /// Takes note of what the connection's event stream delivered. A birth
    /// message, and every connection acknowledgment after the first, queue
    /// a request for the discovery set; anything else is ignored.
    pub fn connection_event(&mut self, event: &BrokerEvent)
        ensures
            final(self)@ == old(self)@.connection_event(*event),
    {
        let resend = match event {
            BrokerEvent::Publish { topic, payload } => *topic == self.birth_topic && is_birth_payload(
                payload.as_slice(),
            ),
            BrokerEvent::ConnAck => {
                let again = self.connection == ConnectionPhase::Reconnected;
                self.connection = ConnectionPhase::Reconnected;
                again
            },
            BrokerEvent::Other => false,
        };
        if resend {
            self.enqueue(HaMqttControlMessage::ResendConfig);
        }
    }

    /// Takes in what reached the worker while it waited: a command is
    /// queued, an event of the connection is taken note of, and when nobody
    /// is left to send commands the worker is told to stop.
    pub fn receive(&mut self, input: &HaMqttInput)
        ensures
            final(self)@ == old(self)@.received(*input),
    {
        match input {
            HaMqttInput::Command(message) => {
                self.enqueue(*message);
            },
            HaMqttInput::Broker(event) => {
                self.connection_event(event);
            },
            HaMqttInput::Closed => {
                self.stop();
            },
        }
    }

    /// The worker's next step. The first step sends the discovery set; every
    /// later one takes the oldest command: a pin change publishes the pin's
    /// state, a resend request publishes the discovery set again, `Stop`
    /// ends the worker. With nothing queued the worker waits.
    pub fn step(&mut self) -> (action: HaMqttAction)
        requires
            old(self)@.wf(),
        ensures
            final(self)@ == old(self)@.step(),
            action@ == old(self)@.step_action(),
            final(self)@.wf(),
    {
        match self.phase {
            HaMqttPhase::Starting => {
                self.phase = HaMqttPhase::Running;
                HaMqttAction::Publish(self.send_config_messages())
            },
            HaMqttPhase::Running => {
                if self.queue.len() == 0 {
                    HaMqttAction::Wait
                } else {
                    match self.queue.remove(0) {
                        HaMqttControlMessage::PinChanged(pin, on) => HaMqttAction::Publish(
                            self.state_messages(pin, on),
                        ),
                        HaMqttControlMessage::ResendConfig => HaMqttAction::Publish(
                            self.send_config_messages(),
                        ),
                        HaMqttControlMessage::Stop => {
                            self.phase = HaMqttPhase::Stopped;
                            self.queue.clear();
                            HaMqttAction::Disconnect
                        },
                    }
                }
            },
            HaMqttPhase::Stopped => HaMqttAction::Finished,
        }
    }
}

/// A step of the worker leaves the announced pins and the topics as they
/// are, and with them the discovery set.
pub proof fn lemma_step_keeps_configuration(h: HaMqttView)
    ensures
        h.step().pins == h.pins,
        h.step().topics == h.topics,
        h.step().birth_topic == h.birth_topic,
        h.step().discovery_set() == h.discovery_set(),
        h.wf() ==> h.step().wf(),
{
}

/// The worker takes the queued commands one at a time and in arrival
/// order: as long as none of the `n` oldest is `Stop`, its `n` next steps
/// answer exactly these, the oldest first, each as if it were alone, and
/// leave the rest of the queue as it is.
pub proof fn lemma_commands_in_arrival_order(h: HaMqttView, n: nat)
    requires
        h.phase == HaMqttPhase::Running,
        n <= h.queue.len(),
        forall|i: int| 0 <= i < n ==> h.queue[i] != HaMqttControlMessage::Stop,
    ensures
        h.after(n).phase == HaMqttPhase::Running,
        h.after(n).pins == h.pins,
        h.after(n).topics == h.topics,
        h.after(n).birth_topic == h.birth_topic,
        h.after(n).connection == h.connection,
        h.after(n).queue == h.queue.skip(n as int),
        h.actions(n).len() == n,
        forall|i: int| 0 <= i < n ==> #[trigger] h.actions(n)[i] == h.answer(h.queue[i]),
    decreases n,
{
    if n == 0 {
        assert(h.queue.skip(0) =~= h.queue);
    } else {
        let m = (n - 1) as nat;
        lemma_commands_in_arrival_order(h, m);
        let before = h.after(m);
        assert(before.queue[0] == h.queue[m as int]);
        assert(before.queue.remove(0) =~= h.queue.skip(n as int));
        assert(before.answer(h.queue[m as int]) == h.answer(h.queue[m as int]));
        assert forall|i: int| 0 <= i < n implies #[trigger] h.actions(n)[i] == h.answer(h.queue[i]) by {
            if i < m {
                assert(h.actions(n)[i] == h.actions(m)[i]);
            }
        }
    }
}

/// Asking for the discovery set again is idempotent: however many
/// requests are queued, each is answered with the same discovery set, that
/// of the configuration, and the configuration is as before.
pub proof fn lemma_resend_is_idempotent(h: HaMqttView, n: nat)
    requires
        h.phase == HaMqttPhase::Running,
        h.queue.len() == n,
        forall|i: int| 0 <= i < n ==> h.queue[i] == HaMqttControlMessage::ResendConfig,
    ensures
        h.actions(n).len() == n,
        forall|i: int|
            0 <= i < n ==> #[trigger] h.actions(n)[i] == HaMqttActionView::Publish(h.discovery_set()),
        h.after(n).discovery_set() == h.discovery_set(),
        h.after(n).queue.len() == 0,
{
    lemma_commands_in_arrival_order(h, n);
}

/// Two changes of one pin are published in the order in which they were
/// handed in.
pub proof fn lemma_changes_publish_in_order(h: HaMqttView, pin: u8, first: bool, second: bool)
    requires
        h.phase == HaMqttPhase::Running,
        h.queue.len() == 0,
    ensures
        h.pin_changed(pin, first).pin_changed(pin, second).actions(2) == seq![
            HaMqttActionView::Publish(h.state_publications(pin, first)),
            HaMqttActionView::Publish(h.state_publications(pin, second)),
        ],
{
    let queued = h.pin_changed(pin, first).pin_changed(pin, second);
    assert(queued.queue[0] == HaMqttControlMessage::PinChanged(pin, first));
    assert(queued.queue[1] == HaMqttControlMessage::PinChanged(pin, second));
    lemma_commands_in_arrival_order(queued, 2);
    assert(queued.actions(2)[0] == queued.answer(queued.queue[0]));
    assert(queued.actions(2)[1] == queued.answer(queued.queue[1]));
    assert(queued.actions(2) =~= seq![
        HaMqttActionView::Publish(h.state_publications(pin, first)),
        HaMqttActionView::Publish(h.state_publications(pin, second)),
    ]);
}

/// A birth message makes an idle worker publish the full discovery set,
/// and so does every connection acknowledgment but the first; no pin has
/// to change for it.
pub proof fn lemma_birth_and_reconnect_resend(h: HaMqttView, event: BrokerEvent)
    requires
        h.phase == HaMqttPhase::Running,
        h.queue.len() == 0,
    ensures
        h.asks_resend(event) ==> h.connection_event(event).step_action() == HaMqttActionView::Publish(
            h.discovery_set(),
        ),
        !h.asks_resend(event) ==> h.connection_event(event).step_action() == HaMqttActionView::Wait,
        h.connection_event(BrokerEvent::ConnAck).asks_resend(BrokerEvent::ConnAck),
{
}

/// Once the worker has taken `Stop` it is gone for good: it publishes
/// nothing more, and what is handed in afterwards is dropped.
pub proof fn lemma_stopped_publisher_is_silent(h: HaMqttView, pin: u8, on: bool, event: BrokerEvent)
    requires
        h.phase == HaMqttPhase::Stopped,
    ensures
        h.step() == h,
        h.step_action() == HaMqttActionView::Finished,
        h.pin_changed(pin, on) == h,
        h.stop() == h,
        h.connection_event(event).queue == h.queue,
        h.connection_event(event).phase == HaMqttPhase::Stopped,
{
}

/// The discovery set holds exactly one publication per announced pin, in
/// table order.
pub proof fn lemma_discovery_set_has_one_per_pin(topics: HaMqttTopics, pins: Seq<HaMqttPinInfo>)
    ensures
        discovery_list(topics, pins).len() == pins.len(),
        forall|i: int|
            0 <= i < pins.len() ==> #[trigger] discovery_list(topics, pins)[i] == discovery_of(topics, pins[i]),
    decreases pins.len(),
{
    if pins.len() > 0 {
        let front = pins.drop_last();
        lemma_discovery_set_has_one_per_pin(topics, front);
        assert forall|i: int| 0 <= i < pins.len() implies #[trigger] discovery_list(topics, pins)[i]
            == discovery_of(topics, pins[i]) by {
            if i < front.len() {
                assert(front[i] == pins[i]);
                assert(discovery_list(topics, pins)[i] == discovery_list(topics, front)[i]);
            }
        }
    }
}

/// Every publication of a discovery set is retained and asks for delivery
/// at least once; a state publication asks for the same delivery and is
/// not retained.
pub proof fn lemma_delivery_of_publications(
    topics: HaMqttTopics,
    pins: Seq<HaMqttPinInfo>,
    entity_id: Seq<char>,
    on: bool,
)
    ensures
        forall|i: int|
            0 <= i < discovery_list(topics, pins).len() ==> (#[trigger] discovery_list(topics, pins)[i]).retain
                && discovery_list(topics, pins)[i].qos == HaMqttQos::AtLeastOnce,
        !state_of(topics, entity_id, on).retain,
        state_of(topics, entity_id, on).qos == HaMqttQos::AtLeastOnce,
    decreases pins.len(),
{
    if pins.len() > 0 {
        lemma_delivery_of_publications(topics, pins.drop_last(), entity_id, on);
    }
}

} // verus!
