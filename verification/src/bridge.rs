//! The loop between the two engines: what one look at the watcher makes
//! the publisher do, which configuration file is read, and the order of
//! shutdown.

use vstd::prelude::*;
use vstd::string::*;
use crate::gpio_watcher::{
    GpioPinLevel, GpioPollResult, GpioStatusMessage, GpioWatcher, GpioWatcherView, RawLevel,
    lemma_feed_reports_each_level, reports, semantic_level,
};
use crate::ha_mqtt::{HaMqtt, HaMqttControlMessage, HaMqttPhase, HaMqttView};
use crate::pin_table::slot_of;

verus! {

/// What one turn of the loop has to do.
#[derive(Debug, Clone, Copy, PartialEq, Eq, Structural)]
pub enum BridgeStep {
    /// Nothing was queued: the loop may sleep before it looks again.
    Idle,
    /// This pin is now on, or off: the publisher has to hear of it.
    Forward(u8, bool),
    /// The watcher's worker is gone: the loop ends.
    Finished,
}

/// How long the loop sleeps after a turn that found nothing, in
/// milliseconds.
pub const IDLE_SLEEP_MILLIS: u64 = 10;

/// A pin is on when its semantic level is high.
pub open spec fn is_on(level: GpioPinLevel) -> bool {
    level == GpioPinLevel::High
}

/// What one turn of the loop has to do, for a given result of the look at
/// the watcher.
pub open spec fn step_of(result: GpioPollResult) -> BridgeStep {
    match result {
        GpioPollResult::Nothing => BridgeStep::Idle,
        GpioPollResult::PinChanged(pin, level) => BridgeStep::Forward(pin, is_on(level)),
        GpioPollResult::Stopped => BridgeStep::Finished,
    }
}

/// The publisher after one turn of the loop, for a given result of the
/// look at the watcher: a pin change is handed in, anything else leaves
/// the publisher alone.
pub open spec fn forwarded(result: GpioPollResult, publisher: HaMqttView) -> HaMqttView {
    match result {
        GpioPollResult::PinChanged(pin, level) => publisher.pin_changed(pin, is_on(level)),
        _ => publisher,
    }
}

/// The command that a status message becomes on its way to the publisher.
pub open spec fn command_of(message: GpioStatusMessage) -> HaMqttControlMessage {
    match message {
        GpioStatusMessage::PinChanged(pin, level) => HaMqttControlMessage::PinChanged(pin, is_on(level)),
    }
}

/// The publisher after `n` turns of the loop.
pub open spec fn relayed(watcher: GpioWatcherView, publisher: HaMqttView, n: nat) -> HaMqttView
    decreases n,
{
    if n == 0 {
        publisher
    } else {
        relayed(watcher.poll(), forwarded(watcher.poll_result(), publisher), (n - 1) as nat)
    }
}

/// The default place of the configuration file.
pub open spec fn default_config_path() -> Seq<char> {
    "/etc/ha-gpio-mqtt.conf"@
}

/// The configuration file to read: the one named on the command line;
/// else the one named in the environment; else the default.
pub fn config_path(argument: Option<String>, environment: Option<String>) -> (path: String)
    ensures
        path@ == match (argument, environment) {
            (Some(named), _) => named@,
            (None, Some(named)) => named@,
            (None, None) => default_config_path(),
        },
{
    match argument {
        Some(named) => named,
        None => match environment {
            Some(named) => named,
            None => String::from_str("/etc/ha-gpio-mqtt.conf"),
        },
    }
}

/// What the loop has to do with the result of one look at the watcher: a
/// pin change goes to the publisher, as on for a high level and off for a
/// low one; with nothing queued the loop idles; once the worker is gone it ends.
pub fn next_step(result: GpioPollResult) -> (step: BridgeStep)
    ensures
        step == step_of(result),
{
    match result {
        GpioPollResult::Nothing => BridgeStep::Idle,
        GpioPollResult::PinChanged(pin, level) => BridgeStep::Forward(pin, matches!(level, GpioPinLevel::High)),
        GpioPollResult::Stopped => BridgeStep::Finished,
    }
}

/// One turn of the loop: looks at the watcher once and hands a pin change
/// to the publisher.
pub fn relay(watcher: &mut GpioWatcher, publisher: &mut HaMqtt) -> (step: BridgeStep)
    ensures
        step == step_of(old(watcher)@.poll_result()),
        final(watcher)@ == old(watcher)@.poll(),
        final(publisher)@ == forwarded(old(watcher)@.poll_result(), old(publisher)@),
{
    let step = next_step(watcher.poll());
    match step {
        BridgeStep::Forward(pin, on) => {
            publisher.pin_changed(pin, on);
        },
        _ => {},
    }
    step
}

/// Shuts both engines down, the watcher first, then the publisher.
pub fn shutdown(watcher: &mut GpioWatcher, publisher: &mut HaMqtt)
    ensures
        final(watcher)@ == old(watcher)@.stop(),
        final(publisher)@ == old(publisher)@.stop(),
{
    watcher.stop();
    publisher.stop();
}

/// The loop hands the watcher's queued changes to the publisher one by
/// one and in order: after `n` turns the `n` oldest stand at the end of the
/// publisher's queue, the oldest first, and nothing else of the publisher
/// has changed.
pub proof fn lemma_relay_keeps_order(watcher: GpioWatcherView, publisher: HaMqttView, n: nat)
    requires
        n <= watcher.status.len(),
        publisher.phase != HaMqttPhase::Stopped,
    ensures
        relayed(watcher, publisher, n).queue == publisher.queue + Seq::new(
            n,
            |i: int| command_of(watcher.status[i]),
        ),
        relayed(watcher, publisher, n).pins == publisher.pins,
        relayed(watcher, publisher, n).topics == publisher.topics,
        relayed(watcher, publisher, n).birth_topic == publisher.birth_topic,
        relayed(watcher, publisher, n).connection == publisher.connection,
        relayed(watcher, publisher, n).phase == publisher.phase,
    decreases n,
{
    if n == 0 {
        assert(publisher.queue + Seq::new(n, |i: int| command_of(watcher.status[i])) =~= publisher.queue);
    } else {
        let next = forwarded(watcher.poll_result(), publisher);
        let m = (n - 1) as nat;
        lemma_relay_keeps_order(watcher.poll(), next, m);
        assert(next.queue == publisher.queue.push(command_of(watcher.status[0])));
        assert(relayed(watcher, publisher, n).queue =~= publisher.queue + Seq::new(
            n,
            |i: int| command_of(watcher.status[i]),
        ));
    }
}

/// From pin to publisher, order is kept and inversion applied: the levels
/// observed on an armed pin reach the publisher's queue as one change
/// each, in the order observed, `on` exactly where the semantic level is
/// high.
pub proof fn lemma_levels_reach_publisher_in_order(
    watcher: GpioWatcherView,
    publisher: HaMqttView,
    pin: u8,
    levels: Seq<RawLevel>,
)
    requires
        watcher.wf(),
        watcher.in_poll_loop(),
        watcher.armed(pin),
        watcher.status.len() == 0,
        publisher.phase != HaMqttPhase::Stopped,
    ensures
        relayed(watcher.feed(pin, levels), publisher, levels.len()).queue == publisher.queue + Seq::new(
            levels.len(),
            |i: int|
                HaMqttControlMessage::PinChanged(
                    pin,
                    is_on(semantic_level(levels[i], watcher.pins[slot_of(watcher.pins, pin)].inverted)),
                ),
        ),
{
    let inverted = watcher.pins[slot_of(watcher.pins, pin)].inverted;
    let fed = watcher.feed(pin, levels);
    lemma_feed_reports_each_level(watcher, pin, levels);
    assert(fed.status =~= reports(pin, inverted, levels));
    lemma_relay_keeps_order(fed, publisher, levels.len());
    assert(Seq::new(levels.len(), |i: int| command_of(fed.status[i])) =~= Seq::new(
        levels.len(),
        |i: int| HaMqttControlMessage::PinChanged(pin, is_on(semantic_level(levels[i], inverted))),
    ));
}

} // verus!
