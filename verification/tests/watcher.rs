use ha_gpio_mqtt::config::{Config, ConfigGpio, ConfigGpioPull, ConfigHomeAssistant, ConfigMqtt};
use ha_gpio_mqtt::gpio_watcher::{
    get_pin_level, poll_result, GpioControlMessage, GpioControlReceive, GpioPinLevel, GpioPinPull,
    GpioPinState, GpioPollResult, GpioStatusMessage, GpioStatusReceive, GpioWatcher, GpioWorkerTask,
    RawLevel, POLL_TIMEOUT_MILLIS,
};

fn pin(number: u8, inverted: bool, pull: ConfigGpioPull) -> ConfigGpio {
    ConfigGpio {
        entity_id: format!("pin_{}", number),
        name: format!("Pin {}", number),
        device_class: None,
        pin: number,
        inverted,
        pull,
    }
}

fn config(gpio: Vec<ConfigGpio>) -> Config {
    Config {
        mqtt: ConfigMqtt {
            hostname: String::from("localhost"),
            port: 1883,
            username: String::from("user"),
            password: String::from("pass"),
            client_id: String::from("bridge"),
        },
        homeassistant: ConfigHomeAssistant {
            discovery_prefix: ConfigHomeAssistant::default_discovery_prefix(),
            birth_topic: ConfigHomeAssistant::default_birth_topic(),
            state_prefix: ConfigHomeAssistant::default_state_prefix(),
            device_name: String::from("pi"),
        },
        gpio,
    }
}

fn watching(gpio: Vec<ConfigGpio>, failing: &[u8]) -> GpioWatcher {
    let mut watcher = GpioWatcher::start(&config(gpio));
    watcher.controller_acquired(true);
    for row in watcher.pins() {
        watcher.pin_setup(row.pin, !failing.contains(&row.pin));
    }
    watcher.begin_watching();
    watcher
}

#[test]
fn semantic_level_equals_raw_level_without_inversion() {
    assert_eq!(get_pin_level(RawLevel::Low, false), GpioPinLevel::Low);
    assert_eq!(get_pin_level(RawLevel::High, false), GpioPinLevel::High);
}

#[test]
fn semantic_level_is_complement_with_inversion() {
    assert_eq!(get_pin_level(RawLevel::Low, true), GpioPinLevel::High);
    assert_eq!(get_pin_level(RawLevel::High, true), GpioPinLevel::Low);
}

#[test]
fn default_pull_is_up() {
    assert_eq!(ConfigGpioPull::default(), ConfigGpioPull::Up);
}

#[test]
fn start_builds_one_row_per_pin_in_init_state() {
    let watcher = GpioWatcher::start(&config(vec![
        pin(17, false, ConfigGpioPull::Floating),
        pin(18, true, ConfigGpioPull::Up),
        pin(19, false, ConfigGpioPull::Down),
    ]));
    let rows = watcher.pins();
    assert_eq!(rows.len(), 3);
    assert_eq!(rows[0].pin, 17);
    assert_eq!(rows[0].pull, None);
    assert_eq!(rows[0].inverted, false);
    assert_eq!(rows[1].pin, 18);
    assert_eq!(rows[1].pull, Some(GpioPinPull::Up));
    assert_eq!(rows[1].inverted, true);
    assert_eq!(rows[2].pin, 19);
    assert_eq!(rows[2].pull, Some(GpioPinPull::Down));
    for row in rows {
        assert_eq!(row.state, GpioPinState::Init);
    }
    assert!(watcher.running());
    assert!(watcher.active_pins().is_empty());
}

#[test]
fn a_pin_configured_twice_keeps_the_later_configuration() {
    let watcher = GpioWatcher::start(&config(vec![
        pin(4, false, ConfigGpioPull::Up),
        pin(5, false, ConfigGpioPull::Up),
        pin(4, true, ConfigGpioPull::Down),
    ]));
    let rows = watcher.pins();
    assert_eq!(rows.len(), 2);
    assert_eq!(rows[0].pin, 4);
    assert_eq!(rows[0].inverted, true);
    assert_eq!(rows[0].pull, Some(GpioPinPull::Down));
    assert_eq!(rows[1].pin, 5);
}

#[test]
fn rising_edge_on_plain_pin_reports_high() {
    let mut watcher = watching(vec![pin(17, false, ConfigGpioPull::Up)], &[]);
    watcher.send_pin_changed(17, RawLevel::High);
    assert_eq!(watcher.poll(), GpioPollResult::PinChanged(17, GpioPinLevel::High));
    assert_eq!(watcher.poll(), GpioPollResult::Nothing);
}

#[test]
fn rising_edge_on_inverted_pin_reports_low() {
    let mut watcher = watching(vec![pin(17, true, ConfigGpioPull::Up)], &[]);
    watcher.send_pin_changed(17, RawLevel::High);
    assert_eq!(watcher.poll(), GpioPollResult::PinChanged(17, GpioPinLevel::Low));
    assert_eq!(watcher.poll(), GpioPollResult::Nothing);
}

#[test]
fn inverted_pin_reports_complement_of_every_transition() {
    let mut watcher = watching(vec![pin(3, true, ConfigGpioPull::Up)], &[]);
    let raw = [RawLevel::High, RawLevel::Low, RawLevel::Low, RawLevel::High, RawLevel::Low];
    for level in raw {
        watcher.send_pin_changed(3, level);
    }
    let expected = [
        GpioPinLevel::Low,
        GpioPinLevel::High,
        GpioPinLevel::High,
        GpioPinLevel::Low,
        GpioPinLevel::High,
    ];
    for level in expected {
        assert_eq!(watcher.poll(), GpioPollResult::PinChanged(3, level));
    }
    assert_eq!(watcher.poll(), GpioPollResult::Nothing);
}

#[test]
fn failed_pin_five_never_reports_while_six_and_seven_do() {
    let mut watcher = watching(
        vec![
            pin(5, false, ConfigGpioPull::Up),
            pin(6, false, ConfigGpioPull::Up),
            pin(7, true, ConfigGpioPull::Up),
        ],
        &[5],
    );
    assert_eq!(watcher.active_pins(), vec![6, 7]);
    let rows = watcher.pins();
    assert_eq!(rows[0].state, GpioPinState::Error);
    assert_eq!(rows[1].state, GpioPinState::Input);
    assert_eq!(rows[2].state, GpioPinState::Input);
    watcher.send_pin_changed(5, RawLevel::High);
    watcher.send_pin_changed(6, RawLevel::High);
    watcher.send_pin_changed(5, RawLevel::Low);
    watcher.send_pin_changed(7, RawLevel::High);
    assert_eq!(watcher.poll(), GpioPollResult::PinChanged(6, GpioPinLevel::High));
    assert_eq!(watcher.poll(), GpioPollResult::PinChanged(7, GpioPinLevel::Low));
    assert_eq!(watcher.poll(), GpioPollResult::Nothing);
}

#[test]
fn every_pin_but_the_failed_ones_is_watched() {
    let gpio: Vec<ConfigGpio> = (1..=8).map(|n| pin(n, false, ConfigGpioPull::Up)).collect();
    let mut watcher = watching(gpio, &[2, 4, 8]);
    assert_eq!(watcher.active_pins(), vec![1, 3, 5, 6, 7]);
    for n in 1..=8 {
        watcher.send_pin_changed(n, RawLevel::High);
    }
    for n in [1, 3, 5, 6, 7] {
        assert_eq!(watcher.poll(), GpioPollResult::PinChanged(n, GpioPinLevel::High));
    }
    assert_eq!(watcher.poll(), GpioPollResult::Nothing);
}

#[test]
fn a_failed_pin_stays_failed() {
    let mut watcher = GpioWatcher::start(&config(vec![pin(9, false, ConfigGpioPull::Up)]));
    watcher.controller_acquired(true);
    watcher.pin_setup(9, false);
    watcher.pin_setup(9, true);
    assert_eq!(watcher.pins()[0].state, GpioPinState::Error);
    watcher.begin_watching();
    watcher.send_pin_changed(9, RawLevel::High);
    assert_eq!(watcher.poll(), GpioPollResult::Nothing);
}

#[test]
fn an_unconfigured_pin_reports_nothing() {
    let mut watcher = watching(vec![pin(1, false, ConfigGpioPull::Up)], &[]);
    watcher.send_pin_changed(2, RawLevel::High);
    assert_eq!(watcher.poll(), GpioPollResult::Nothing);
}

#[test]
fn nothing_is_reported_before_the_poll_loop() {
    let mut watcher = GpioWatcher::start(&config(vec![pin(1, false, ConfigGpioPull::Up)]));
    watcher.send_pin_changed(1, RawLevel::High);
    watcher.controller_acquired(true);
    watcher.pin_setup(1, true);
    watcher.send_pin_changed(1, RawLevel::High);
    assert_eq!(watcher.poll(), GpioPollResult::Nothing);
    watcher.begin_watching();
    watcher.send_pin_changed(1, RawLevel::High);
    assert_eq!(watcher.poll(), GpioPollResult::PinChanged(1, GpioPinLevel::High));
}

#[test]
fn pins_are_only_set_up_while_arming() {
    let mut watcher = GpioWatcher::start(&config(vec![pin(1, false, ConfigGpioPull::Up)]));
    watcher.pin_setup(1, true);
    assert_eq!(watcher.pins()[0].state, GpioPinState::Init);
    watcher.controller_acquired(true);
    watcher.begin_watching();
    watcher.pin_setup(1, true);
    assert_eq!(watcher.pins()[0].state, GpioPinState::Init);
    assert!(watcher.active_pins().is_empty());
}

#[test]
fn without_the_controller_the_worker_is_gone() {
    let mut watcher = GpioWatcher::start(&config(vec![pin(1, false, ConfigGpioPull::Up)]));
    watcher.controller_acquired(false);
    assert!(!watcher.running());
    watcher.pin_setup(1, true);
    watcher.begin_watching();
    watcher.send_pin_changed(1, RawLevel::High);
    assert_eq!(watcher.poll(), GpioPollResult::Stopped);
    assert_eq!(watcher.poll(), GpioPollResult::Stopped);
}

#[test]
fn nothing_is_reported_after_stop() {
    let mut watcher = watching(vec![pin(1, false, ConfigGpioPull::Up)], &[]);
    watcher.send_pin_changed(1, RawLevel::High);
    watcher.send_pin_changed(1, RawLevel::Low);
    watcher.stop();
    assert!(!watcher.running());
    watcher.send_pin_changed(1, RawLevel::Low);
    watcher.send_pin_changed(1, RawLevel::High);
    assert_eq!(watcher.poll(), GpioPollResult::Stopped);
    assert_eq!(watcher.poll(), GpioPollResult::Stopped);
}

#[test]
fn stop_before_the_poll_loop_discards_startup_levels_too() {
    let mut watcher = GpioWatcher::start(&config(vec![pin(1, false, ConfigGpioPull::Up)]));
    watcher.controller_acquired(true);
    watcher.pin_setup(1, true);
    watcher.initial_level(1, RawLevel::High);
    watcher.stop();
    watcher.initial_level(1, RawLevel::High);
    watcher.begin_watching();
    assert_eq!(watcher.poll(), GpioPollResult::Stopped);
    assert_eq!(watcher.next_task(), GpioWorkerTask::Exit);
}

#[test]
fn a_worker_that_exits_by_itself_still_delivers_what_it_queued() {
    let mut watcher = watching(vec![pin(1, false, ConfigGpioPull::Up)], &[]);
    watcher.send_pin_changed(1, RawLevel::High);
    assert!(!watcher.check_control(GpioControlReceive::Message(GpioControlMessage::Stop)));
    watcher.send_pin_changed(1, RawLevel::Low);
    assert_eq!(watcher.poll(), GpioPollResult::PinChanged(1, GpioPinLevel::High));
    assert_eq!(watcher.poll(), GpioPollResult::Stopped);
    assert_eq!(watcher.poll(), GpioPollResult::Stopped);
}

#[test]
fn stop_twice_is_harmless() {
    let mut watcher = watching(vec![pin(1, false, ConfigGpioPull::Up)], &[]);
    watcher.stop();
    watcher.stop();
    assert_eq!(watcher.poll(), GpioPollResult::Stopped);
}

#[test]
fn changes_of_one_pin_are_polled_in_order() {
    let mut watcher = watching(vec![pin(1, false, ConfigGpioPull::Up)], &[]);
    watcher.send_pin_changed(1, RawLevel::High);
    watcher.send_pin_changed(1, RawLevel::Low);
    assert_eq!(watcher.poll(), GpioPollResult::PinChanged(1, GpioPinLevel::High));
    assert_eq!(watcher.poll(), GpioPollResult::PinChanged(1, GpioPinLevel::Low));
}

#[test]
fn stop_message_and_closed_control_channel_end_the_worker() {
    let mut watcher = watching(vec![pin(1, false, ConfigGpioPull::Up)], &[]);
    assert!(watcher.check_control(GpioControlReceive::Empty));
    assert!(watcher.running());
    assert!(!watcher.check_control(GpioControlReceive::Message(GpioControlMessage::Stop)));
    assert!(!watcher.check_control(GpioControlReceive::Empty));
    assert_eq!(watcher.poll(), GpioPollResult::Stopped);

    let mut other = watching(vec![pin(1, false, ConfigGpioPull::Up)], &[]);
    assert!(!other.check_control(GpioControlReceive::Disconnected));
    other.send_pin_changed(1, RawLevel::High);
    assert_eq!(other.poll(), GpioPollResult::Stopped);
}

#[test]
fn the_wait_is_bounded_by_ten_milliseconds() {
    assert_eq!(POLL_TIMEOUT_MILLIS, 10);
}

#[test]
fn poll_result_of_each_look_at_the_status_channel() {
    let message = GpioStatusMessage::PinChanged(12, GpioPinLevel::High);
    assert_eq!(
        poll_result(GpioStatusReceive::Message(message)),
        GpioPollResult::PinChanged(12, GpioPinLevel::High)
    );
    assert_eq!(poll_result(GpioStatusReceive::Empty), GpioPollResult::Nothing);
    assert_eq!(poll_result(GpioStatusReceive::Disconnected), GpioPollResult::Stopped);
}

#[test]
fn the_worker_takes_controller_then_each_pin_then_watches() {
    let mut watcher = GpioWatcher::start(&config(vec![
        pin(5, false, ConfigGpioPull::Floating),
        pin(6, false, ConfigGpioPull::Up),
        pin(7, true, ConfigGpioPull::Down),
    ]));
    assert_eq!(watcher.next_task(), GpioWorkerTask::AcquireController);
    watcher.controller_acquired(true);
    assert_eq!(watcher.next_task(), GpioWorkerTask::SetupPin(5, None));
    assert_eq!(watcher.next_task(), GpioWorkerTask::SetupPin(5, None));
    watcher.pin_setup(5, false);
    assert_eq!(watcher.next_task(), GpioWorkerTask::SetupPin(6, Some(GpioPinPull::Up)));
    watcher.pin_setup(6, true);
    assert_eq!(watcher.next_task(), GpioWorkerTask::SetupPin(7, Some(GpioPinPull::Down)));
    watcher.pin_setup(7, true);
    assert_eq!(watcher.next_task(), GpioWorkerTask::ReadLevel(6));
    watcher.initial_level(6, RawLevel::High);
    assert_eq!(watcher.next_task(), GpioWorkerTask::ReadLevel(7));
    watcher.initial_level(7, RawLevel::High);
    assert_eq!(watcher.next_task(), GpioWorkerTask::BeginWatching);
    watcher.begin_watching();
    assert_eq!(watcher.next_task(), GpioWorkerTask::CheckControl);
    assert_eq!(watcher.active_pins(), vec![6, 7]);
    assert_eq!(watcher.poll(), GpioPollResult::PinChanged(6, GpioPinLevel::High));
    assert_eq!(watcher.poll(), GpioPollResult::PinChanged(7, GpioPinLevel::Low));
    assert_eq!(watcher.poll(), GpioPollResult::Nothing);
    watcher.stop();
    assert_eq!(watcher.next_task(), GpioWorkerTask::Exit);
}

#[test]
fn the_worker_leaves_at_once_without_the_controller() {
    let mut watcher = GpioWatcher::start(&config(vec![pin(5, false, ConfigGpioPull::Up)]));
    watcher.controller_acquired(false);
    assert_eq!(watcher.next_task(), GpioWorkerTask::Exit);
}

#[test]
fn a_watcher_without_pins_goes_straight_to_watching() {
    let mut watcher = GpioWatcher::start(&config(Vec::new()));
    watcher.controller_acquired(true);
    assert_eq!(watcher.next_task(), GpioWorkerTask::BeginWatching);
    watcher.begin_watching();
    assert_eq!(watcher.next_task(), GpioWorkerTask::CheckControl);
    assert!(watcher.active_pins().is_empty());
    assert_eq!(watcher.poll(), GpioPollResult::Nothing);
}

#[test]
fn an_armed_pin_reports_its_startup_level_once() {
    let mut watcher = GpioWatcher::start(&config(vec![
        pin(2, true, ConfigGpioPull::Up),
        pin(3, false, ConfigGpioPull::Up),
        pin(4, false, ConfigGpioPull::Up),
    ]));
    watcher.initial_level(2, RawLevel::Low);
    watcher.controller_acquired(true);
    watcher.initial_level(2, RawLevel::Low);
    watcher.pin_setup(2, true);
    watcher.pin_setup(3, false);
    watcher.pin_setup(4, true);
    watcher.initial_level(3, RawLevel::High);
    watcher.initial_level(9, RawLevel::High);
    watcher.initial_level(2, RawLevel::Low);
    watcher.initial_level(2, RawLevel::High);
    assert!(watcher.pins()[0].reported);
    assert!(!watcher.pins()[1].reported);
    assert!(!watcher.pins()[2].reported);
    assert_eq!(watcher.next_task(), GpioWorkerTask::ReadLevel(4));
    watcher.initial_level(4, RawLevel::Low);
    assert_eq!(watcher.next_task(), GpioWorkerTask::BeginWatching);
    watcher.begin_watching();
    watcher.initial_level(4, RawLevel::High);
    assert_eq!(watcher.poll(), GpioPollResult::PinChanged(2, GpioPinLevel::High));
    assert_eq!(watcher.poll(), GpioPollResult::PinChanged(4, GpioPinLevel::Low));
    assert_eq!(watcher.poll(), GpioPollResult::Nothing);
}
