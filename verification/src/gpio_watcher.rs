//! The pin watcher: which pins are armed, and what each raw transition
//! becomes on the status queue.
//!
//! `GpioWatcher` is the watcher's whole state: the table of configured pins
//! with their runtime state, the phase of the worker, and the status queue
//! that `poll` drains. The code that owns the hardware reports what happened
//! (controller acquired, pin armed or failed, level observed); every decision
//! about what that means is taken here.

use vstd::prelude::*;
use crate::config::{Config, ConfigGpio, ConfigGpioPull};
use crate::pin_table::{
    distinct_pins, find_pin, has_pin, lemma_slot_is_unique, slot_of, table_of, PinRow,
};

verus! {

/// The electrical level of a pin, before inversion is applied.
#[derive(Debug, Clone, Copy, PartialEq, Eq, Structural)]
pub enum RawLevel {
    Low,
    High,
}

/// The semantic level of a pin, after inversion is applied.
#[derive(Debug, Clone, Copy, PartialEq, Eq, Structural)]
pub enum GpioPinLevel {
    Low,
    High,
}

/// What one look at the status queue found.
#[derive(Debug, Clone, Copy, PartialEq, Eq, Structural)]
pub enum GpioPollResult {
    Nothing,
    PinChanged(u8, GpioPinLevel),
    Stopped,
}

/// A message on the status queue, from the worker to whoever polls.
#[derive(Debug, Clone, Copy, PartialEq, Eq, Structural)]
pub enum GpioStatusMessage {
    PinChanged(u8, GpioPinLevel),
}

/// A pull resistor that is switched on.
#[derive(Debug, Clone, Copy, PartialEq, Eq, Structural)]
pub enum GpioPinPull {
    Up,
    Down,
}

/// The runtime state of one pin. `Input` is an armed pin; `Error` is a pin
/// whose acquisition or arming failed, and it stays so.
#[derive(Debug, Clone, Copy, PartialEq, Eq, Structural)]
pub enum GpioPinState {
    Init,
    Input,
    Error,
}

/// One row of the pin table. `reported` says whether the level that the
/// pin had at startup has been put on the status queue.
#[derive(Debug, Clone, Copy, PartialEq, Eq, Structural)]
pub struct GpioPinInfo {
    pub pin: u8,
    pub inverted: bool,
    pub pull: Option<GpioPinPull>,
    pub state: GpioPinState,
    pub reported: bool,
}

/// Where the worker stands: before the controller is acquired; while pins
/// are being armed; in the poll loop, about to look at its control channel
/// (`Watching`) or, having looked, about to wait for an edge (`Waiting`);
/// or gone.
#[derive(Debug, Clone, Copy, PartialEq, Eq, Structural)]
pub enum GpioWorkerPhase {
    Starting,
    Arming,
    Watching,
    Waiting,
    Exited,
}

/// What the worker has to do next.
#[derive(Debug, Clone, Copy, PartialEq, Eq, Structural)]
pub enum GpioWorkerTask {
    /// Acquire the controller, and report the outcome.
    AcquireController,
    /// Acquire this pin as an input with this pull, arm it for both edges,
    /// and report the outcome.
    SetupPin(u8, Option<GpioPinPull>),
    /// Read the level that this armed pin has now, and report it.
    ReadLevel(u8),
    /// Every pin has had its turn: enter the poll loop.
    BeginWatching,
    /// Look at the control channel, without waiting, and report what was
    /// there.
    CheckControl,
    /// Wait once, for a bounded time, for an edge on the active watch set,
    /// and report how the wait ended.
    Wait,
    /// Leave.
    Exit,
}

/// How one wait for an edge on the active watch set ended.
#[derive(Debug, Clone, Copy, PartialEq, Eq, Structural)]
pub enum GpioWaitOutcome {
    /// A pin changed to this raw level.
    Edge(u8, RawLevel),
    /// The wait timed out, or ended without a transition.
    Quiet,
    /// The wait itself failed.
    Failed,
}

/// A message on the control channel, from the owner to the worker.
#[derive(Debug, Clone, Copy, PartialEq, Eq, Structural)]
pub enum GpioControlMessage {
    Stop,
}

/// What one look at the control channel found.
#[derive(Debug, Clone, Copy, PartialEq, Eq, Structural)]
pub enum GpioControlReceive {
    Message(GpioControlMessage),
    Empty,
    Disconnected,
}

/// What one look at the status channel found.
#[derive(Debug, Clone, Copy, PartialEq, Eq, Structural)]
pub enum GpioStatusReceive {
    Message(GpioStatusMessage),
    Empty,
    Disconnected,
}

/// How long the worker waits for an edge before it looks at its control
/// again, in milliseconds.
pub const POLL_TIMEOUT_MILLIS: u64 = 10;

/// The semantic level of a raw level: its complement on an inverted pin,
/// the level itself otherwise.
pub open spec fn semantic_level(level: RawLevel, inverted: bool) -> GpioPinLevel {
    if (level == RawLevel::High) != inverted {
        GpioPinLevel::High
    } else {
        GpioPinLevel::Low
    }
}

/// The pull of a table row for a configured bias.
pub open spec fn pull_of(pull: ConfigGpioPull) -> Option<GpioPinPull> {
    match pull {
        ConfigGpioPull::Floating => None,
        ConfigGpioPull::Up => Some(GpioPinPull::Up),
        ConfigGpioPull::Down => Some(GpioPinPull::Down),
    }
}

/// The table row that a configured pin starts with.
pub open spec fn entry_of(io: ConfigGpio) -> GpioPinInfo {
    GpioPinInfo {
        pin: io.pin,
        inverted: io.inverted,
        pull: pull_of(io.pull),
        state: GpioPinState::Init,
        reported: false,
    }
}

impl PinRow for GpioPinInfo {
    open spec fn pin_number(&self) -> u8 {
        self.pin
    }

    open spec fn of_config(io: ConfigGpio) -> Self {
        entry_of(io)
    }

    fn number(&self) -> (pin: u8) {
        self.pin
    }

    proof fn lemma_of_config_keeps_pin(io: ConfigGpio) {
    }
}

/// Whether a row still has its turn to come: while pins are set up
/// (`reading` is false), a row that waits to be set up; while startup
/// levels are read, an armed row whose level has not been reported.
pub open spec fn due(row: GpioPinInfo, reading: bool) -> bool {
    if reading {
        row.state == GpioPinState::Input && !row.reported
    } else {
        row.state == GpioPinState::Init
    }
}

/// The index of the first row whose turn is still to come; the length of
/// the table where there is none.
pub open spec fn first_due(pins: Seq<GpioPinInfo>, reading: bool) -> int
    decreases pins.len(),
{
    if pins.len() == 0 {
        0
    } else if due(pins.first(), reading) {
        0
    } else {
        1 + first_due(pins.drop_first(), reading)
    }
}

/// The numbers of the armed rows, in table order.
pub open spec fn armed_pins(pins: Seq<GpioPinInfo>) -> Seq<u8>
    decreases pins.len(),
{
    if pins.len() == 0 {
        Seq::empty()
    } else if pins.last().state == GpioPinState::Input {
        armed_pins(pins.drop_last()).push(pins.last().pin)
    } else {
        armed_pins(pins.drop_last())
    }
}

/// What a look at the status channel means to whoever polls: a message
/// is a pin change, an empty channel is nothing, and a channel whose
/// worker is gone is the end.
pub open spec fn result_of(received: GpioStatusReceive) -> GpioPollResult {
    match received {
        GpioStatusReceive::Message(GpioStatusMessage::PinChanged(pin, level)) => GpioPollResult::PinChanged(
            pin,
            level,
        ),
        GpioStatusReceive::Empty => GpioPollResult::Nothing,
        GpioStatusReceive::Disconnected => GpioPollResult::Stopped,
    }
}

/// The pin that a status message is about.
pub open spec fn pin_of(message: GpioStatusMessage) -> u8 {
    match message {
        GpioStatusMessage::PinChanged(pin, _) => pin,
    }
}

/// The watcher as a value: pin table, worker phase, and the status queue
/// with its oldest message first.
pub struct GpioWatcherView {
    pub pins: Seq<GpioPinInfo>,
    pub phase: GpioWorkerPhase,
    pub status: Seq<GpioStatusMessage>,
}

impl GpioWatcherView {
    /// The table holds each pin number once.
    pub open spec fn wf(self) -> bool {
        distinct_pins(self.pins)
    }

    /// `pin` is configured and armed.
    pub open spec fn armed(self, pin: u8) -> bool {
        has_pin(self.pins, pin) && self.pins[slot_of(self.pins, pin)].state == GpioPinState::Input
    }

    /// `pin` is configured and its acquisition or arming failed.
    pub open spec fn failed(self, pin: u8) -> bool {
        has_pin(self.pins, pin) && self.pins[slot_of(self.pins, pin)].state == GpioPinState::Error
    }

    /// Every queued change is of an armed pin.
    pub open spec fn reports_from_armed(self) -> bool {
        forall|i: int| 0 <= i < self.status.len() ==> self.armed(pin_of(#[trigger] self.status[i]))
    }

    /// What the worker has to do next: first the controller; then the
    /// pins one by one in table order; then the startup level of each armed
    /// pin, in table order; then the poll loop.
    pub open spec fn next_task(self) -> GpioWorkerTask {
        match self.phase {
            GpioWorkerPhase::Starting => GpioWorkerTask::AcquireController,
            GpioWorkerPhase::Arming => if first_due(self.pins, false) < self.pins.len() {
                GpioWorkerTask::SetupPin(
                    self.pins[first_due(self.pins, false)].pin,
                    self.pins[first_due(self.pins, false)].pull,
                )
            } else if first_due(self.pins, true) < self.pins.len() {
                GpioWorkerTask::ReadLevel(self.pins[first_due(self.pins, true)].pin)
            } else {
                GpioWorkerTask::BeginWatching
            },
            GpioWorkerPhase::Watching => GpioWorkerTask::CheckControl,
            GpioWorkerPhase::Waiting => GpioWorkerTask::Wait,
            GpioWorkerPhase::Exited => GpioWorkerTask::Exit,
        }
    }

    /// The worker is in its poll loop.
    pub open spec fn in_poll_loop(self) -> bool {
        self.phase == GpioWorkerPhase::Watching || self.phase == GpioWorkerPhase::Waiting
    }

    /// The worker learns whether the controller could be acquired.
    pub open spec fn controller_acquired(self, ok: bool) -> Self {
        if self.phase == GpioWorkerPhase::Starting {
            GpioWatcherView {
                pins: self.pins,
                phase: if ok { GpioWorkerPhase::Arming } else { GpioWorkerPhase::Exited },
                status: self.status,
            }
        } else {
            self
        }
    }

    /// The worker learns whether `pin` could be acquired and armed.
    pub open spec fn pin_setup(self, pin: u8, armed: bool) -> Self {
        if self.phase == GpioWorkerPhase::Arming && has_pin(self.pins, pin) && self.pins[slot_of(
            self.pins,
            pin,
        )].state == GpioPinState::Init {
            let slot = slot_of(self.pins, pin);
            let row = self.pins[slot];
            GpioWatcherView {
                pins: self.pins.update(
                    slot,
                    GpioPinInfo {
                        pin: row.pin,
                        inverted: row.inverted,
                        pull: row.pull,
                        state: if armed { GpioPinState::Input } else { GpioPinState::Error },
                        reported: row.reported,
                    },
                ),
                phase: self.phase,
                status: self.status,
            }
        } else {
            self
        }
    }

    /// The worker read `level` on `pin` at startup. Before the poll loop,
    /// an armed pin reports the level it has, once.
    pub open spec fn initial_level(self, pin: u8, level: RawLevel) -> Self {
        if self.phase == GpioWorkerPhase::Arming && self.armed(pin) && !self.pins[slot_of(
            self.pins,
            pin,
        )].reported {
            let slot = slot_of(self.pins, pin);
            let row = self.pins[slot];
            GpioWatcherView {
                pins: self.pins.update(
                    slot,
                    GpioPinInfo {
                        pin: row.pin,
                        inverted: row.inverted,
                        pull: row.pull,
                        state: row.state,
                        reported: true,
                    },
                ),
                phase: self.phase,
                status: self.status.push(GpioStatusMessage::PinChanged(pin, semantic_level(level, row.inverted))),
            }
        } else {
            self
        }
    }

    /// The worker enters the poll loop.
    pub open spec fn begin_watching(self) -> Self {
        if self.phase == GpioWorkerPhase::Arming {
            GpioWatcherView { pins: self.pins, phase: GpioWorkerPhase::Watching, status: self.status }
        } else {
            self
        }
    }

    /// The worker observed `level` on `pin`.
    pub open spec fn send_pin_changed(self, pin: u8, level: RawLevel) -> Self {
        if self.in_poll_loop() && self.armed(pin) {
            GpioWatcherView {
                pins: self.pins,
                phase: self.phase,
                status: self.status.push(
                    GpioStatusMessage::PinChanged(
                        pin,
                        semantic_level(level, self.pins[slot_of(self.pins, pin)].inverted),
                    ),
                ),
            }
        } else {
            self
        }
    }

    /// The worker looked at its control channel: a `Stop` message, and a
    /// channel whose other end is gone, end it; with nothing there, a
    /// worker in its poll loop may now wait once.
    pub open spec fn control_checked(self, received: GpioControlReceive) -> Self {
        if !(received is Empty) {
            self.exit()
        } else if self.phase == GpioWorkerPhase::Watching {
            GpioWatcherView { pins: self.pins, phase: GpioWorkerPhase::Waiting, status: self.status }
        } else {
            self
        }
    }

    /// One wait of the worker ended with `outcome`: a transition is
    /// reported, and the worker has to look at its control channel again.
    /// Only a wait that followed a look at the control channel counts.
    pub open spec fn wait_ended(self, outcome: GpioWaitOutcome) -> Self {
        if self.phase == GpioWorkerPhase::Waiting {
            let reported = match outcome {
                GpioWaitOutcome::Edge(pin, level) => self.send_pin_changed(pin, level),
                _ => self,
            };
            GpioWatcherView { pins: reported.pins, phase: GpioWorkerPhase::Watching, status: reported.status }
        } else {
            self
        }
    }

    /// The worker observed `levels` on `pin`, one after the other.
    pub open spec fn feed(self, pin: u8, levels: Seq<RawLevel>) -> Self
        decreases levels.len(),
    {
        if levels.len() == 0 {
            self
        } else {
            self.feed(pin, levels.drop_last()).send_pin_changed(pin, levels.last())
        }
    }

    /// The worker has exited of its own accord. What it queued before is
    /// still there for whoever polls.
    pub open spec fn exit(self) -> Self {
        GpioWatcherView { pins: self.pins, phase: GpioWorkerPhase::Exited, status: self.status }
    }

    /// The owner has stopped the watcher: the worker has exited, and what
    /// was still queued is discarded.
    pub open spec fn stop(self) -> Self {
        GpioWatcherView { pins: self.pins, phase: GpioWorkerPhase::Exited, status: Seq::empty() }
    }

    /// What a look at the status queue finds there: the oldest message;
    /// else, once the worker has exited, that the queue is closed.
    pub open spec fn receive(self) -> GpioStatusReceive {
        if self.status.len() > 0 {
            GpioStatusReceive::Message(self.status[0])
        } else if self.phase == GpioWorkerPhase::Exited {
            GpioStatusReceive::Disconnected
        } else {
            GpioStatusReceive::Empty
        }
    }

    /// What a look at the status queue means to whoever polls.
    pub open spec fn poll_result(self) -> GpioPollResult {
        result_of(self.receive())
    }

    /// The watcher after a look at the status queue.
    pub open spec fn poll(self) -> Self {
        if self.status.len() > 0 {
            GpioWatcherView { pins: self.pins, phase: self.phase, status: self.status.remove(0) }
        } else {
            self
        }
    }
}

/// The watcher: pin table, worker phase and status queue.
pub struct GpioWatcher {
    pins: Vec<GpioPinInfo>,
    phase: GpioWorkerPhase,
    status: Vec<GpioStatusMessage>,
}

impl View for GpioWatcher {
    type V = GpioWatcherView;

    closed spec fn view(&self) -> GpioWatcherView {
        GpioWatcherView { pins: self.pins@, phase: self.phase, status: self.status@ }
    }
}

/// The semantic level of a raw level on a pin that is, or is not, inverted.
pub fn get_pin_level(level: RawLevel, inverted: bool) -> (semantic: GpioPinLevel)
    ensures
        semantic == semantic_level(level, inverted),
{
    if inverted {
        match level {
            RawLevel::Low => GpioPinLevel::High,
            RawLevel::High => GpioPinLevel::Low,
        }
    } else {
        match level {
            RawLevel::Low => GpioPinLevel::Low,
            RawLevel::High => GpioPinLevel::High,
        }
    }
}

/// What a look at the status channel means to whoever polls: a queued
/// message is a pin change; an empty channel is `Nothing`; a channel
/// that is closed for good, because the worker has exited, is `Stopped`.
pub fn poll_result(received: GpioStatusReceive) -> (result: GpioPollResult)
    ensures
        result == result_of(received),
{
    match received {
        GpioStatusReceive::Message(GpioStatusMessage::PinChanged(pin, level)) => GpioPollResult::PinChanged(
            pin,
            level,
        ),
        GpioStatusReceive::Empty => GpioPollResult::Nothing,
        GpioStatusReceive::Disconnected => GpioPollResult::Stopped,
    }
}

/// The first row whose turn is still to come.
fn first_due_row(pins: &Vec<GpioPinInfo>, reading: bool) -> (i: usize)
    ensures
        i == first_due(pins@, reading),
        i <= pins@.len(),
{
    let mut i: usize = 0;
    while i < pins.len() && !is_due(&pins[i], reading)
        invariant
            i <= pins@.len(),
            forall|k: int| 0 <= k < i ==> !due(#[trigger] pins@[k], reading),
        decreases pins@.len() - i,
    {
        i += 1;
    }
    proof {
        lemma_first_due(pins@, reading, i as int);
    }
    i
}

/// Whether a row still has its turn to come.
fn is_due(row: &GpioPinInfo, reading: bool) -> (is: bool)
    ensures
        is == due(*row, reading),
{
    if reading {
        row.state == GpioPinState::Input && !row.reported
    } else {
        row.state == GpioPinState::Init
    }
}

impl GpioWatcher {
    /// A watcher for the configured pins: every pin waits to be armed, the
    /// worker has not yet acquired the controller, and nothing is queued.
    pub fn start(config: &Config) -> (watcher: Self)
        ensures
            watcher@.wf(),
            watcher@.pins == table_of::<GpioPinInfo>(config.gpio@),
            watcher@.phase == GpioWorkerPhase::Starting,
            watcher@.status == Seq::<GpioStatusMessage>::empty(),
    {
        let mut pins: Vec<GpioPinInfo> = Vec::new();
        let mut k: usize = 0;
        while k < config.gpio.len()
            invariant
                k <= config.gpio@.len(),
                pins@ == table_of::<GpioPinInfo>(config.gpio@.take(k as int)),
                distinct_pins(pins@),
            decreases config.gpio@.len() - k,
        {
            let io = &config.gpio[k];
            let entry = GpioPinInfo {
                pin: io.pin,
                inverted: io.inverted,
                pull: match io.pull {
                    ConfigGpioPull::Floating => None,
                    ConfigGpioPull::Up => Some(GpioPinPull::Up),
                    ConfigGpioPull::Down => Some(GpioPinPull::Down),
                },
                state: GpioPinState::Init,
                reported: false,
            };
            proof {
                let next = config.gpio@.take(k + 1);
                assert(next.drop_last() == config.gpio@.take(k as int));
                assert(next.last() == config.gpio@[k as int]);
                assert(entry == entry_of(next.last()));
            }
            match find_pin(&pins, io.pin) {
                Some(i) => {
                    pins.set(i, entry);
                },
                None => {
                    pins.push(entry);
                },
            }
            k += 1;
        }
        proof {
            assert(config.gpio@.take(k as int) == config.gpio@);
        }
        GpioWatcher { pins, phase: GpioWorkerPhase::Starting, status: Vec::new() }
    }

    /// What the worker has to do next: acquire the controller; then set up
    /// the pins one by one, in table order; then read the startup level of
    /// each armed pin, in table order; then enter the poll loop and watch;
    /// and leave once it has exited.
    pub fn next_task(&self) -> (task: GpioWorkerTask)
        ensures
            task == self@.next_task(),
    {
        match self.phase {
            GpioWorkerPhase::Starting => GpioWorkerTask::AcquireController,
            GpioWorkerPhase::Arming => {
                let waiting = first_due_row(&self.pins, false);
                if waiting < self.pins.len() {
                    GpioWorkerTask::SetupPin(self.pins[waiting].pin, self.pins[waiting].pull)
                } else {
                    let unread = first_due_row(&self.pins, true);
                    if unread < self.pins.len() {
                        GpioWorkerTask::ReadLevel(self.pins[unread].pin)
                    } else {
                        GpioWorkerTask::BeginWatching
                    }
                }
            },
            GpioWorkerPhase::Watching => GpioWorkerTask::CheckControl,
            GpioWorkerPhase::Waiting => GpioWorkerTask::Wait,
            GpioWorkerPhase::Exited => GpioWorkerTask::Exit,
        }
    }

    /// The worker reports whether it could acquire the controller. Without
    /// the controller the worker exits, and no pin is ever watched.
    pub fn controller_acquired(&mut self, ok: bool)
        ensures
            final(self)@ == old(self)@.controller_acquired(ok),
            old(self)@.wf() ==> final(self)@.wf(),
    {
        if self.phase == GpioWorkerPhase::Starting {
            self.phase = if ok { GpioWorkerPhase::Arming } else { GpioWorkerPhase::Exited };
        }
    }

    /// The worker reports whether it could acquire and arm `pin`. A pin that
    /// failed stays failed; no other pin is touched.
    pub fn pin_setup(&mut self, pin: u8, armed: bool)
        requires
            old(self)@.wf(),
        ensures
            final(self)@ == old(self)@.pin_setup(pin, armed),
            final(self)@.wf(),
    {
        if self.phase == GpioWorkerPhase::Arming {
            if let Some(i) = find_pin(&self.pins, pin) {
                let row = self.pins[i];
                if row.state == GpioPinState::Init {
                    let state = if armed { GpioPinState::Input } else { GpioPinState::Error };
                    self.pins.set(
                        i,
                        GpioPinInfo {
                            pin: row.pin,
                            inverted: row.inverted,
                            pull: row.pull,
                            state,
                            reported: row.reported,
                        },
                    );
                }
            }
        }
    }

    /// The worker read `level` on `pin` at startup. Before the poll loop,
    /// an armed pin puts the semantic level that it has on the status
    /// queue, once; anything else is dropped.
    pub fn initial_level(&mut self, pin: u8, level: RawLevel)
        requires
            old(self)@.wf(),
        ensures
            final(self)@ == old(self)@.initial_level(pin, level),
            final(self)@.wf(),
    {
        if self.phase == GpioWorkerPhase::Arming {
            if let Some(i) = find_pin(&self.pins, pin) {
                let row = self.pins[i];
                if row.state == GpioPinState::Input && !row.reported {
                    let semantic = get_pin_level(level, row.inverted);
                    self.pins.set(
                        i,
                        GpioPinInfo {
                            pin: row.pin,
                            inverted: row.inverted,
                            pull: row.pull,
                            state: row.state,
                            reported: true,
                        },
                    );
                    self.status.push(GpioStatusMessage::PinChanged(pin, semantic));
                }
            }
        }
    }

    /// The worker enters the poll loop.
    pub fn begin_watching(&mut self)
        ensures
            final(self)@ == old(self)@.begin_watching(),
            old(self)@.wf() ==> final(self)@.wf(),
    {
        if self.phase == GpioWorkerPhase::Arming {
            self.phase = GpioWorkerPhase::Watching;
        }
    }

    /// The worker observed `level` on `pin`. In the poll loop, an armed pin
    /// puts its semantic level on the status queue; anything else is dropped.
    pub fn send_pin_changed(&mut self, pin: u8, level: RawLevel)
        requires
            old(self)@.wf(),
        ensures
            final(self)@ == old(self)@.send_pin_changed(pin, level),
            final(self)@.wf(),
    {
        if self.phase == GpioWorkerPhase::Watching || self.phase == GpioWorkerPhase::Waiting {
            if let Some(i) = find_pin(&self.pins, pin) {
                let row = self.pins[i];
                if row.state == GpioPinState::Input {
                    let semantic = get_pin_level(level, row.inverted);
                    self.status.push(GpioStatusMessage::PinChanged(pin, semantic));
                }
            }
        }
    }

    /// The worker looked at its control channel. A `Stop` message, and a
    /// channel whose other end is gone, end the worker at once; with nothing
    /// there, a worker in its poll loop may now wait once.
    pub fn check_control(&mut self, received: GpioControlReceive) -> (go_on: bool)
        ensures
            final(self)@ == old(self)@.control_checked(received),
            go_on == (final(self)@.phase != GpioWorkerPhase::Exited),
            old(self)@.wf() ==> final(self)@.wf(),
    {
        match received {
            GpioControlReceive::Empty => {
                if self.phase == GpioWorkerPhase::Watching {
                    self.phase = GpioWorkerPhase::Waiting;
                }
            },
            GpioControlReceive::Message(GpioControlMessage::Stop) => {
                self.phase = GpioWorkerPhase::Exited;
            },
            GpioControlReceive::Disconnected => {
                self.phase = GpioWorkerPhase::Exited;
            },
        }
        self.running()
    }

    /// One wait of the worker ended with `outcome`. A transition is
    /// reported; a wait that ended without one, or failed, reports nothing.
    /// Whatever the outcome, the worker has to look at its control channel
    /// before it waits again, and a wait that did not follow such a look
    /// does not count.
    pub fn wait_ended(&mut self, outcome: GpioWaitOutcome)
        requires
            old(self)@.wf(),
        ensures
            final(self)@ == old(self)@.wait_ended(outcome),
            final(self)@.wf(),
    {
        if self.phase == GpioWorkerPhase::Waiting {
            match outcome {
                GpioWaitOutcome::Edge(pin, level) => {
                    self.send_pin_changed(pin, level);
                },
                GpioWaitOutcome::Quiet => {},
                GpioWaitOutcome::Failed => {},
            }
            self.phase = GpioWorkerPhase::Watching;
        }
    }

    /// Whether the worker goes on: false once it has exited.
    pub fn running(&self) -> (on: bool)
        ensures
            on == (self@.phase != GpioWorkerPhase::Exited),
    {
        self.phase != GpioWorkerPhase::Exited
    }

    /// The pin table, row by row.
    pub fn pins(&self) -> (rows: Vec<GpioPinInfo>)
        ensures
            rows@ == self@.pins,
    {
        let mut rows: Vec<GpioPinInfo> = Vec::new();
        let mut i: usize = 0;
        while i < self.pins.len()
            invariant
                i <= self.pins@.len(),
                rows@ == self.pins@.take(i as int),
            decreases self.pins@.len() - i,
        {
            rows.push(self.pins[i]);
            proof {
                assert(self.pins@.take(i + 1) == self.pins@.take(i as int).push(self.pins@[i as int]));
            }
            i += 1;
        }
        proof {
            assert(self.pins@.take(i as int) == self.pins@);
        }
        rows
    }

    /// The active watch set: the numbers of the armed pins, in table order.
    pub fn active_pins(&self) -> (active: Vec<u8>)
        ensures
            active@ == armed_pins(self@.pins),
    {
        let mut active: Vec<u8> = Vec::new();
        let mut i: usize = 0;
        while i < self.pins.len()
            invariant
                i <= self.pins@.len(),
                active@ == armed_pins(self.pins@.take(i as int)),
            decreases self.pins@.len() - i,
        {
            proof {
                let next = self.pins@.take(i + 1);
                assert(next.drop_last() == self.pins@.take(i as int));
                assert(next.last() == self.pins@[i as int]);
            }
            if self.pins[i].state == GpioPinState::Input {
                active.push(self.pins[i].pin);
            }
            i += 1;
        }
        proof {
            assert(self.pins@.take(i as int) == self.pins@);
        }
        active
    }

    /// One look at the status queue, without waiting: the oldest queued
    /// change, `Stopped` when the queue is empty and the worker has exited,
    /// `Nothing` when it is empty and the worker is still there.
    pub fn poll(&mut self) -> (result: GpioPollResult)
        ensures
            result == old(self)@.poll_result(),
            final(self)@ == old(self)@.poll(),
            old(self)@.wf() ==> final(self)@.wf(),
    {
        let received = if self.status.len() > 0 {
            GpioStatusReceive::Message(self.status.remove(0))
        } else if self.phase == GpioWorkerPhase::Exited {
            GpioStatusReceive::Disconnected
        } else {
            GpioStatusReceive::Empty
        };
        poll_result(received)
    }

    /// Stops the watcher. The worker has exited when this returns, and what
    /// was still queued is discarded: from now on every look at the status
    /// queue finds `Stopped`. A second call changes nothing.
    pub fn stop(&mut self)
        ensures
            final(self)@ == old(self)@.stop(),
            old(self)@.wf() ==> final(self)@.wf(),
    {
        self.phase = GpioWorkerPhase::Exited;
        self.status.clear();
    }
}

/// The messages that `levels`, observed in turn on an armed pin, put on the
/// status queue.
pub open spec fn reports(pin: u8, inverted: bool, levels: Seq<RawLevel>) -> Seq<GpioStatusMessage> {
    Seq::new(levels.len(), |i: int| GpioStatusMessage::PinChanged(pin, semantic_level(levels[i], inverted)))
}

/// The active watch set holds exactly the armed pins: a pin that failed, or
/// that was never set up, is not in it.
pub proof fn lemma_active_pins_are_the_armed(pins: Seq<GpioPinInfo>, pin: u8)
    requires
        distinct_pins(pins),
    ensures
        armed_pins(pins).contains(pin) <==> (has_pin(pins, pin) && pins[slot_of(pins, pin)].state
            == GpioPinState::Input),
    decreases pins.len(),
{
    if pins.len() > 0 {
        let front = pins.drop_last();
        let last = pins.last();
        assert forall|i: int, j: int| 0 <= i < j < front.len() implies (#[trigger] front[i]).pin != (
        #[trigger] front[j]).pin by {
            assert(front[i] == pins[i]);
            assert(front[j] == pins[j]);
        }
        lemma_active_pins_are_the_armed(front, pin);
        let rest = armed_pins(front);
        if armed_pins(pins).contains(pin) {
            let k = choose|k: int| 0 <= k < armed_pins(pins).len() && armed_pins(pins)[k] == pin;
            if last.state == GpioPinState::Input && k == rest.len() {
                lemma_slot_is_unique(pins, pin, pins.len() - 1);
            } else {
                assert(rest[k] == pin);
                assert(rest.contains(pin));
                let i = slot_of(front, pin);
                assert(front[i].pin == pin);
                assert(pins[i] == front[i]);
                lemma_slot_is_unique(pins, pin, i);
            }
        }
        if has_pin(pins, pin) && pins[slot_of(pins, pin)].state == GpioPinState::Input {
            let i = slot_of(pins, pin);
            assert(pins[i].pin == pin);
            if i == pins.len() - 1 {
                assert(armed_pins(pins)[rest.len() as int] == pin);
            } else {
                assert(front[i] == pins[i]);
                lemma_slot_is_unique(front, pin, i);
                assert(rest.contains(pin));
                let k = choose|k: int| 0 <= k < rest.len() && rest[k] == pin;
                assert(armed_pins(pins)[k] == pin);
            }
        }
    } else {
        assert(!has_pin(pins, pin));
    }
}

/// Inversion is the logical complement: an inverted pin reports the
/// opposite of its raw level, any other pin the raw level itself.
pub proof fn lemma_inversion_is_complement(level: RawLevel)
    ensures
        semantic_level(RawLevel::Low, true) == GpioPinLevel::High,
        semantic_level(RawLevel::High, true) == GpioPinLevel::Low,
        semantic_level(RawLevel::Low, false) == GpioPinLevel::Low,
        semantic_level(RawLevel::High, false) == GpioPinLevel::High,
        semantic_level(level, true) != semantic_level(level, false),
{
}

/// Every raw level observed on an armed pin in the poll loop is reported,
/// in the order observed, with the pin's inversion applied; the queue is
/// otherwise untouched.
pub proof fn lemma_feed_reports_each_level(w: GpioWatcherView, pin: u8, levels: Seq<RawLevel>)
    requires
        w.wf(),
        w.in_poll_loop(),
        w.armed(pin),
    ensures
        w.feed(pin, levels).pins == w.pins,
        w.feed(pin, levels).phase == w.phase,
        w.feed(pin, levels).status == w.status + reports(
            pin,
            w.pins[slot_of(w.pins, pin)].inverted,
            levels,
        ),
    decreases levels.len(),
{
    let inverted = w.pins[slot_of(w.pins, pin)].inverted;
    if levels.len() > 0 {
        lemma_feed_reports_each_level(w, pin, levels.drop_last());
        let before = w.feed(pin, levels.drop_last());
        assert(before.armed(pin));
        assert(w.feed(pin, levels).status =~= w.status + reports(pin, inverted, levels));
    } else {
        assert(w.status + reports(pin, inverted, levels) =~= w.status);
    }
}

/// A pin that is not armed (it failed, was never set up, or is not
/// configured) never reports, whatever is observed on it.
pub proof fn lemma_unarmed_pin_is_silent(w: GpioWatcherView, pin: u8, levels: Seq<RawLevel>)
    requires
        !w.armed(pin),
    ensures
        w.feed(pin, levels) == w,
    decreases levels.len(),
{
    if levels.len() > 0 {
        lemma_unarmed_pin_is_silent(w, pin, levels.drop_last());
    }
}

/// A failed pin stays failed: a later setup report for it changes nothing.
pub proof fn lemma_failed_is_terminal(w: GpioWatcherView, pin: u8, armed: bool)
    requires
        w.failed(pin),
    ensures
        w.pin_setup(pin, armed) == w,
{
}

/// The outcome of setting up one pin touches no other pin: whether another
/// pin is armed or failed, and how it inverts, is as before.
pub proof fn lemma_setup_touches_one_pin(w: GpioWatcherView, pin: u8, armed: bool, other: u8)
    requires
        w.wf(),
        other != pin,
    ensures
        w.pin_setup(pin, armed).wf(),
        has_pin(w.pin_setup(pin, armed).pins, other) == has_pin(w.pins, other),
        has_pin(w.pins, other) ==> w.pin_setup(pin, armed).pins[slot_of(
            w.pin_setup(pin, armed).pins,
            other,
        )] == w.pins[slot_of(w.pins, other)],
        w.pin_setup(pin, armed).armed(other) == w.armed(other),
        w.pin_setup(pin, armed).failed(other) == w.failed(other),
{
    let after = w.pin_setup(pin, armed);
    if after != w {
        let slot = slot_of(w.pins, pin);
        assert(w.pins[slot].pin == pin);
        assert forall|i: int, j: int| 0 <= i < j < after.pins.len() implies (
        #[trigger] after.pins[i]).pin != (#[trigger] after.pins[j]).pin by {
            assert(after.pins[i].pin == w.pins[i].pin);
            assert(after.pins[j].pin == w.pins[j].pin);
        }
        if has_pin(w.pins, other) {
            let i = slot_of(w.pins, other);
            assert(w.pins[i].pin == other);
            assert(after.pins[i] == w.pins[i]);
            lemma_slot_is_unique(after.pins, other, i);
        }
        if has_pin(after.pins, other) {
            let i = slot_of(after.pins, other);
            assert(after.pins[i].pin == other);
            assert(after.pins[i] == w.pins[i]);
            lemma_slot_is_unique(w.pins, other, i);
        }
    }
}

/// One pin's failure never silences another: when `bad` fails and `good` is
/// armed, then in the poll loop `bad` reports nothing, and `good` reports
/// each level observed on it.
pub proof fn lemma_failure_leaves_others_watched(w: GpioWatcherView, bad: u8, good: u8, level: RawLevel)
    requires
        w.wf(),
        w.phase == GpioWorkerPhase::Arming,
        bad != good,
        has_pin(w.pins, bad),
        has_pin(w.pins, good),
        w.pins[slot_of(w.pins, bad)].state == GpioPinState::Init,
        w.pins[slot_of(w.pins, good)].state == GpioPinState::Init,
    ensures
        ({
            let v = w.pin_setup(bad, false).pin_setup(good, true).begin_watching();
            &&& v.failed(bad)
            &&& v.armed(good)
            &&& v.send_pin_changed(bad, level) == v
            &&& v.send_pin_changed(good, level).status == v.status.push(
                GpioStatusMessage::PinChanged(
                    good,
                    semantic_level(level, w.pins[slot_of(w.pins, good)].inverted),
                ),
            )
        }),
{
    let a = w.pin_setup(bad, false);
    let b = a.pin_setup(good, true);
    lemma_setup_touches_one_pin(w, bad, false, good);
    let sb = slot_of(w.pins, bad);
    assert(w.pins[sb].pin == bad);
    assert(a.pins[sb].pin == bad);
    lemma_slot_is_unique(a.pins, bad, sb);
    assert(a.failed(bad));
    lemma_setup_touches_one_pin(a, good, true, bad);
    let sg = slot_of(a.pins, good);
    assert(a.pins[sg].pin == good);
    assert(b.pins[sg].pin == good);
    lemma_slot_is_unique(b.pins, good, sg);
}

/// After `stop` no pin change is observable any more: the status queue is
/// empty, nothing that is reported to the watcher changes it, and every
/// look at the queue finds `Stopped` and leaves the watcher as it is.
pub proof fn lemma_nothing_after_stop(
    w: GpioWatcherView,
    pin: u8,
    level: RawLevel,
    levels: Seq<RawLevel>,
    outcome: bool,
    waited: GpioWaitOutcome,
    received: GpioControlReceive,
)
    ensures
        w.stop().status == Seq::<GpioStatusMessage>::empty(),
        w.stop().pins == w.pins,
        w.stop().poll_result() == GpioPollResult::Stopped,
        w.stop().poll() == w.stop(),
        w.stop().stop() == w.stop(),
        w.stop().exit() == w.stop(),
        w.stop().send_pin_changed(pin, level) == w.stop(),
        w.stop().initial_level(pin, level) == w.stop(),
        w.stop().feed(pin, levels) == w.stop(),
        w.stop().pin_setup(pin, outcome) == w.stop(),
        w.stop().controller_acquired(outcome) == w.stop(),
        w.stop().begin_watching() == w.stop(),
        w.stop().wait_ended(waited) == w.stop(),
        w.stop().control_checked(received) == w.stop(),
        w.stop().next_task() == GpioWorkerTask::Exit,
    decreases levels.len(),
{
    if levels.len() > 0 {
        lemma_nothing_after_stop(w, pin, level, levels.drop_last(), outcome, waited, received);
    }
}

/// A worker that exits of its own accord, on a `Stop` message or because
/// its control channel is closed, adds nothing to the status queue
/// afterwards; what it had queued is still delivered, oldest first, and
/// then every look at the queue finds `Stopped`.
pub proof fn lemma_nothing_is_added_after_exit(
    w: GpioWatcherView,
    pin: u8,
    level: RawLevel,
    outcome: bool,
    waited: GpioWaitOutcome,
    received: GpioControlReceive,
)
    ensures
        w.control_checked(GpioControlReceive::Message(GpioControlMessage::Stop)) == w.exit(),
        w.control_checked(GpioControlReceive::Disconnected) == w.exit(),
        w.control_checked(GpioControlReceive::Empty).status == w.status,
        w.control_checked(GpioControlReceive::Empty).pins == w.pins,
        w.exit().status == w.status,
        w.exit().send_pin_changed(pin, level) == w.exit(),
        w.exit().initial_level(pin, level) == w.exit(),
        w.exit().pin_setup(pin, outcome) == w.exit(),
        w.exit().controller_acquired(outcome) == w.exit(),
        w.exit().begin_watching() == w.exit(),
        w.exit().wait_ended(waited) == w.exit(),
        w.exit().control_checked(received) == w.exit(),
        w.exit().poll().phase == GpioWorkerPhase::Exited,
        w.status.len() == 0 ==> w.exit().poll_result() == GpioPollResult::Stopped && w.exit().poll() == w.exit(),
{
}

/// Only armed pins are ever on the status queue: a watcher starts with an
/// empty queue, and whatever happens next, every queued change is of a
/// pin that is armed. A failed pin is never armed, and so never there.
pub proof fn lemma_reports_come_from_armed_pins(
    w: GpioWatcherView,
    pin: u8,
    level: RawLevel,
    outcome: bool,
    waited: GpioWaitOutcome,
    received: GpioControlReceive,
)
    requires
        w.wf(),
        w.reports_from_armed(),
    ensures
        w.controller_acquired(outcome).reports_from_armed(),
        w.pin_setup(pin, outcome).reports_from_armed(),
        w.begin_watching().reports_from_armed(),
        w.send_pin_changed(pin, level).reports_from_armed(),
        w.wait_ended(waited).reports_from_armed(),
        w.control_checked(received).reports_from_armed(),
        w.initial_level(pin, level).reports_from_armed(),
        w.exit().reports_from_armed(),
        w.stop().reports_from_armed(),
        w.poll().reports_from_armed(),
        forall|failed: u8| w.failed(failed) ==> !w.armed(failed),
{
    let read = w.initial_level(pin, level);
    if read != w {
        let slot = slot_of(w.pins, pin);
        assert(w.pins[slot].pin == pin);
        assert forall|a: int, b: int| 0 <= a < b < read.pins.len() implies (#[trigger] read.pins[a]).pin != (
        #[trigger] read.pins[b]).pin by {
            assert(read.pins[a].pin == w.pins[a].pin);
            assert(read.pins[b].pin == w.pins[b].pin);
        }
        assert forall|i: int| 0 <= i < read.status.len() implies read.armed(pin_of(#[trigger] read.status[i])) by {
            let q = pin_of(read.status[i]);
            if i < w.status.len() {
                assert(read.status[i] == w.status[i]);
                assert(w.armed(q));
            }
            let k = slot_of(w.pins, q);
            assert(w.pins[k].pin == q);
            assert(read.pins[k].pin == q);
            lemma_slot_is_unique(read.pins, q, k);
        }
    }
    assert forall|i: int| 0 <= i < w.exit().status.len() implies w.exit().armed(
        pin_of(#[trigger] w.exit().status[i]),
    ) by {
        assert(w.armed(pin_of(w.status[i])));
    }
    let set_up = w.pin_setup(pin, outcome);
    assert forall|i: int| 0 <= i < set_up.status.len() implies set_up.armed(
        pin_of(#[trigger] set_up.status[i]),
    ) by {
        let q = pin_of(w.status[i]);
        assert(w.armed(q));
        if q != pin {
            lemma_setup_touches_one_pin(w, pin, outcome, q);
        }
    }
    let sent = w.send_pin_changed(pin, level);
    assert forall|i: int| 0 <= i < sent.status.len() implies sent.armed(pin_of(#[trigger] sent.status[i])) by {
        if i < w.status.len() {
            assert(w.armed(pin_of(w.status[i])));
        }
    }
    let checked = w.control_checked(received);
    assert forall|i: int| 0 <= i < checked.status.len() implies checked.armed(
        pin_of(#[trigger] checked.status[i]),
    ) by {
        assert(w.armed(pin_of(w.status[i])));
    }
    let ended = w.wait_ended(waited);
    assert forall|i: int| 0 <= i < ended.status.len() implies ended.armed(pin_of(#[trigger] ended.status[i])) by {
        if i < w.status.len() {
            assert(ended.status[i] == w.status[i]);
            assert(w.armed(pin_of(w.status[i])));
        }
    }
    let polled = w.poll();
    assert forall|i: int| 0 <= i < polled.status.len() implies polled.armed(
        pin_of(#[trigger] polled.status[i]),
    ) by {
        if w.status.len() > 0 {
            assert(polled.status[i] == w.status[i + 1]);
            assert(w.armed(pin_of(w.status[i + 1])));
        } else {
            assert(w.armed(pin_of(w.status[i])));
        }
    }
    assert forall|i: int| 0 <= i < w.begin_watching().status.len() implies w.begin_watching().armed(
        pin_of(#[trigger] w.begin_watching().status[i]),
    ) by {
        assert(w.armed(pin_of(w.status[i])));
    }
    assert forall|i: int| 0 <= i < w.controller_acquired(outcome).status.len() implies w.controller_acquired(
        outcome,
    ).armed(pin_of(#[trigger] w.controller_acquired(outcome).status[i])) by {
        assert(w.armed(pin_of(w.status[i])));
    }
}

/// The first row whose turn is to come is the one before which there is
/// none.
pub proof fn lemma_first_due(pins: Seq<GpioPinInfo>, reading: bool, i: int)
    requires
        0 <= i <= pins.len(),
        forall|k: int| 0 <= k < i ==> !due(#[trigger] pins[k], reading),
        i < pins.len() ==> due(pins[i], reading),
    ensures
        first_due(pins, reading) == i,
    decreases i,
{
    if i > 0 {
        let rest = pins.drop_first();
        assert(!due(pins[0], reading));
        assert forall|k: int| 0 <= k < i - 1 implies !due(#[trigger] rest[k], reading) by {
            assert(rest[k] == pins[k + 1]);
        }
        if i < pins.len() {
            assert(rest[i - 1] == pins[i]);
        }
        lemma_first_due(rest, reading, i - 1);
    }
}

/// Where the first row is whose turn is to come: within the table or at
/// its end, at a row that is due, and behind rows that are not.
pub proof fn lemma_first_due_is_first(pins: Seq<GpioPinInfo>, reading: bool)
    ensures
        0 <= first_due(pins, reading) <= pins.len(),
        first_due(pins, reading) < pins.len() ==> due(pins[first_due(pins, reading)], reading),
        forall|k: int| 0 <= k < first_due(pins, reading) ==> !due(#[trigger] pins[k], reading),
    decreases pins.len(),
{
    if pins.len() > 0 && !due(pins.first(), reading) {
        let rest = pins.drop_first();
        lemma_first_due_is_first(rest, reading);
        assert forall|k: int| 0 <= k < first_due(pins, reading) implies !due(#[trigger] pins[k], reading) by {
            if k > 0 {
                assert(pins[k] == rest[k - 1]);
            }
        }
        if first_due(pins, reading) < pins.len() {
            assert(pins[first_due(pins, reading)] == rest[first_due(rest, reading)]);
        }
    }
}

/// The startup protocol takes every pin in turn. While pins are armed, the
/// worker is given a pin to set up as long as a row waits, and each
/// outcome that it reports for that pin, armed or failed, moves it on to a
/// later row. It enters the poll loop only when no row waits and every
/// armed pin has reported its startup level.
pub proof fn lemma_every_pin_has_its_turn(w: GpioWatcherView, outcome: bool)
    requires
        w.wf(),
        w.phase == GpioWorkerPhase::Arming,
    ensures
        w.next_task() is SetupPin <==> exists|k: int|
            0 <= k < w.pins.len() && (#[trigger] w.pins[k]).state == GpioPinState::Init,
        w.next_task() == GpioWorkerTask::BeginWatching <==> forall|k: int|
            0 <= k < w.pins.len() ==> (#[trigger] w.pins[k]).state != GpioPinState::Init && (w.pins[k].state
                == GpioPinState::Input ==> w.pins[k].reported),
        w.next_task() matches GpioWorkerTask::SetupPin(pin, pull) ==> {
            &&& has_pin(w.pins, pin)
            &&& w.pins[slot_of(w.pins, pin)].state == GpioPinState::Init
            &&& w.pins[slot_of(w.pins, pin)].pull == pull
            &&& first_due(w.pin_setup(pin, outcome).pins, false) > first_due(w.pins, false)
            &&& w.pin_setup(pin, outcome).phase == GpioWorkerPhase::Arming
        },
{
    lemma_first_due_is_first(w.pins, false);
    lemma_first_due_is_first(w.pins, true);
    let i = first_due(w.pins, false);
    if i < w.pins.len() {
        let pin = w.pins[i].pin;
        lemma_slot_is_unique(w.pins, pin, i);
        let after = w.pin_setup(pin, outcome);
        lemma_first_due_is_first(after.pins, false);
        let j = first_due(after.pins, false);
        if j < i {
            assert(after.pins[j] == w.pins[j]);
        }
        assert(w.pins[i].state == GpioPinState::Init);
    } else {
        assert forall|k: int| 0 <= k < w.pins.len() implies (#[trigger] w.pins[k]).state
            != GpioPinState::Init by {
            assert(!due(w.pins[k], false));
        }
        let r = first_due(w.pins, true);
        if r < w.pins.len() {
            assert(due(w.pins[r], true));
        } else {
            assert forall|k: int| 0 <= k < w.pins.len() implies (#[trigger] w.pins[k]).state
                == GpioPinState::Input ==> w.pins[k].reported by {
                assert(!due(w.pins[k], true));
            }
        }
    }
}

/// Every armed pin reports the level that it has at startup, once and in
/// table order: the pin that the worker is given to read is armed and has
/// not reported; the level read on it is queued with the pin's inversion
/// applied; and the worker is moved on to a later row, with no pin left
/// to set up.
pub proof fn lemma_startup_levels_in_turn(w: GpioWatcherView, level: RawLevel)
    requires
        w.wf(),
        w.phase == GpioWorkerPhase::Arming,
    ensures
        w.next_task() matches GpioWorkerTask::ReadLevel(pin) ==> {
            &&& w.armed(pin)
            &&& !w.pins[slot_of(w.pins, pin)].reported
            &&& w.initial_level(pin, level).status == w.status.push(
                GpioStatusMessage::PinChanged(
                    pin,
                    semantic_level(level, w.pins[slot_of(w.pins, pin)].inverted),
                ),
            )
            &&& w.initial_level(pin, level).armed(pin)
            &&& w.initial_level(pin, level).initial_level(pin, level) == w.initial_level(pin, level)
            &&& first_due(w.initial_level(pin, level).pins, true) > first_due(w.pins, true)
            &&& first_due(w.initial_level(pin, level).pins, false) == w.pins.len()
            &&& w.initial_level(pin, level).wf()
        },
{
    lemma_first_due_is_first(w.pins, false);
    lemma_first_due_is_first(w.pins, true);
    if first_due(w.pins, false) == w.pins.len() {
        let i = first_due(w.pins, true);
        if i < w.pins.len() {
            let pin = w.pins[i].pin;
            lemma_slot_is_unique(w.pins, pin, i);
            let after = w.initial_level(pin, level);
            assert forall|a: int, b: int| 0 <= a < b < after.pins.len() implies (#[trigger] after.pins[a]).pin
                != (#[trigger] after.pins[b]).pin by {
                assert(after.pins[a].pin == w.pins[a].pin);
                assert(after.pins[b].pin == w.pins[b].pin);
            }
            lemma_slot_is_unique(after.pins, pin, i);
            lemma_first_due_is_first(after.pins, true);
            let j = first_due(after.pins, true);
            if j < i {
                assert(after.pins[j] == w.pins[j]);
            }
            assert forall|k: int| 0 <= k < after.pins.len() implies !due(#[trigger] after.pins[k], false) by {
                assert(!due(w.pins[k], false));
            }
            lemma_first_due(after.pins, false, after.pins.len() as int);
        }
    }
}

/// The control channel is looked at before every wait, however often
/// edges arrive: in the poll loop the worker is first given the control
/// check; only when nothing was there is it given one wait; and when that
/// wait has ended, with an edge or without, it is given the control check
/// again. A `Stop` message, or a closed channel, found by any such check
/// ends the worker.
pub proof fn lemma_control_is_checked_before_every_wait(
    w: GpioWatcherView,
    waited: GpioWaitOutcome,
    received: GpioControlReceive,
)
    requires
        w.in_poll_loop(),
    ensures
        w.next_task() == GpioWorkerTask::Wait <==> w.phase == GpioWorkerPhase::Waiting,
        w.phase == GpioWorkerPhase::Watching ==> w.next_task() == GpioWorkerTask::CheckControl,
        w.phase == GpioWorkerPhase::Watching ==> w.wait_ended(waited) == w,
        w.phase == GpioWorkerPhase::Watching ==> w.control_checked(GpioControlReceive::Empty).next_task()
            == GpioWorkerTask::Wait,
        w.phase == GpioWorkerPhase::Waiting ==> w.wait_ended(waited).next_task() == GpioWorkerTask::CheckControl,
        !(received is Empty) ==> w.control_checked(received).next_task() == GpioWorkerTask::Exit,
        w.begin_watching() == w,
{
}

} // verus!
