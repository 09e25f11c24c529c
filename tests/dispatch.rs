use prop_relay_control::hardware::{DigitalInput, RelayOutput, RelayState};
use prop_relay_control::input::{CooldownTracker, InputMonitor};
use prop_relay_control::sequence::{Dispatch, SequenceConfig, SequenceDispatcher, SequenceStep};

const SEQ_A: &[SequenceStep] = &[
    SequenceStep { relay: RelayOutput::Relay1, state: RelayState::High, duration_ms: 1000 },
    SequenceStep { relay: RelayOutput::Relay1, state: RelayState::Low, duration_ms: 0 },
];

const SEQ_B: &[SequenceStep] = &[
    SequenceStep { relay: RelayOutput::Relay2, state: RelayState::High, duration_ms: 100 },
    SequenceStep { relay: RelayOutput::Relay2, state: RelayState::Low, duration_ms: 0 },
];

fn table() -> [SequenceConfig; 2] {
    [
        SequenceConfig::new(DigitalInput::DI1, 5000, SEQ_A, "A"),
        SequenceConfig::new(DigitalInput::DI2, 30000, SEQ_B, "B"),
    ]
}

fn ran(d: Dispatch) -> &'static str {
    match d {
        Dispatch::Run(c) => c.name,
        _ => "",
    }
}

#[test]
fn step_and_config_constructors_keep_fields() {
    let s = SequenceStep::new(RelayOutput::Relay3, RelayState::Low, 250);
    assert_eq!(s.relay, RelayOutput::Relay3);
    assert_eq!(s.state, RelayState::Low);
    assert_eq!(s.duration_ms, 250);
    let c = SequenceConfig::new(DigitalInput::DI4, 1234, SEQ_B, "Snake");
    assert_eq!(c.trigger, DigitalInput::DI4);
    assert_eq!(c.cooldown_ms, 1234);
    assert_eq!(c.sequence.len(), 2);
    assert_eq!(c.name, "Snake");
}

#[test]
fn never_triggered_input_is_not_cooling_down() {
    let d = SequenceDispatcher::new(&table());
    assert!(!d.is_cooling_down_at(DigitalInput::DI1, 0));
    assert!(!d.is_cooling_down_at(DigitalInput::DI1, u64::MAX));
    assert_eq!(d.remaining_ms_at(DigitalInput::DI1, 10), 0);
}

#[test]
fn cooling_down_iff_within_window() {
    let mut d = SequenceDispatcher::new(&table());
    d.mark_triggered_at(DigitalInput::DI1, 1000);
    assert!(d.is_cooling_down_at(DigitalInput::DI1, 1000));
    assert!(d.is_cooling_down_at(DigitalInput::DI1, 5999));
    assert!(!d.is_cooling_down_at(DigitalInput::DI1, 6000));
    assert!(!d.is_cooling_down_at(DigitalInput::DI2, 1000));
}

#[test]
fn remaining_cooldown_counts_down_to_zero() {
    let mut d = SequenceDispatcher::new(&table());
    d.mark_triggered_at(DigitalInput::DI2, 500);
    assert_eq!(d.remaining_ms_at(DigitalInput::DI2, 500), 30000);
    assert_eq!(d.remaining_ms_at(DigitalInput::DI2, 10500), 20000);
    assert_eq!(d.remaining_ms_at(DigitalInput::DI2, 30499), 1);
    assert_eq!(d.remaining_ms_at(DigitalInput::DI2, 30500), 0);
    assert_eq!(d.remaining_ms_at(DigitalInput::DI2, 90000), 0);
}

#[test]
fn mark_triggered_starts_cooldown_immediately() {
    let mut d = SequenceDispatcher::new(&table());
    d.mark_triggered_at(DigitalInput::DI1, 42);
    assert!(d.is_cooling_down_at(DigitalInput::DI1, 42));
}

#[test]
fn zero_cooldown_never_cools_down() {
    let mut d = SequenceDispatcher::new(&table());
    d.mark_triggered_at(DigitalInput::DI5, 42);
    assert!(!d.is_cooling_down_at(DigitalInput::DI5, 42));
}

#[test]
fn find_config_takes_first_match() {
    let configs = [
        SequenceConfig::new(DigitalInput::DI3, 100, SEQ_A, "first"),
        SequenceConfig::new(DigitalInput::DI3, 900, SEQ_B, "second"),
    ];
    let d = SequenceDispatcher::new(&configs);
    assert_eq!(d.find_config(&configs, DigitalInput::DI3).unwrap().name, "first");
    assert!(d.find_config(&configs, DigitalInput::DI1).is_none());
}

#[test]
fn duplicate_entries_take_first_cooldown() {
    let configs = [
        SequenceConfig::new(DigitalInput::DI3, 100, SEQ_A, "first"),
        SequenceConfig::new(DigitalInput::DI3, 900, SEQ_B, "second"),
    ];
    let mut d = SequenceDispatcher::new(&configs);
    d.mark_triggered_at(DigitalInput::DI3, 0);
    assert_eq!(d.remaining_ms_at(DigitalInput::DI3, 0), 100);
    assert_eq!(d.find_config(&configs, DigitalInput::DI3).unwrap().cooldown_ms, 100);
}

#[test]
fn unmapped_input_changes_nothing() {
    let configs = table();
    let mut d = SequenceDispatcher::new(&configs);
    assert!(matches!(d.dispatch_at(&configs, DigitalInput::DI7, 100), Dispatch::Unmapped));
    assert!(!d.is_cooling_down_at(DigitalInput::DI7, 100));
    assert!(matches!(d.dispatch_at(&configs, DigitalInput::DI7, 101), Dispatch::Unmapped));
}

#[test]
fn dispatch_table_scenario() {
    let configs = table();
    let mut d = SequenceDispatcher::new(&configs);
    assert_eq!(ran(d.dispatch_at(&configs, DigitalInput::DI1, 10_000)), "A");
    match d.dispatch_at(&configs, DigitalInput::DI1, 11_000) {
        Dispatch::CoolingDown { remaining_ms } => assert_eq!(remaining_ms, 4000),
        _ => panic!("second event should be discarded"),
    }
    assert_eq!(ran(d.dispatch_at(&configs, DigitalInput::DI2, 11_500)), "B");
    assert_eq!(ran(d.dispatch_at(&configs, DigitalInput::DI1, 15_000)), "A");
    match d.dispatch_at(&configs, DigitalInput::DI2, 12_000) {
        Dispatch::CoolingDown { remaining_ms } => assert_eq!(remaining_ms, 29500),
        _ => panic!("snake is cooling down"),
    }
}

#[test]
fn dispatch_with_clock_starts_cooldown() {
    let configs = table();
    let mut d = SequenceDispatcher::new(&configs);
    assert_eq!(ran(d.dispatch(&configs, DigitalInput::DI2)), "B");
    assert!(d.is_cooling_down(DigitalInput::DI2));
    assert!(d.remaining_ms(DigitalInput::DI2) > 0);
    assert!(matches!(d.dispatch(&configs, DigitalInput::DI2), Dispatch::CoolingDown { .. }));
    d.mark_triggered(DigitalInput::DI1);
    assert!(d.is_cooling_down(DigitalInput::DI1));
}

#[test]
fn tracker_uses_one_window_for_all_inputs() {
    let mut t = CooldownTracker::new(2000);
    assert!(!t.is_cooling_down_at(DigitalInput::DI8, 0));
    t.mark_triggered_at(DigitalInput::DI8, 100);
    t.mark_triggered_at(DigitalInput::DI1, 1000);
    assert!(t.is_cooling_down_at(DigitalInput::DI8, 2099));
    assert!(!t.is_cooling_down_at(DigitalInput::DI8, 2100));
    assert_eq!(t.remaining_ms_at(DigitalInput::DI1, 1500), 1500);
    assert_eq!(t.remaining_ms_at(DigitalInput::DI1, 3000), 0);
    assert!(!t.is_cooling_down_at(DigitalInput::DI2, 1500));
}

#[test]
fn tracker_with_clock() {
    let mut t = CooldownTracker::new(60_000);
    assert!(!t.is_cooling_down(DigitalInput::DI3));
    assert_eq!(t.remaining_ms(DigitalInput::DI3), 0);
    t.mark_triggered(DigitalInput::DI3);
    assert!(t.is_cooling_down(DigitalInput::DI3));
    assert!(t.remaining_ms(DigitalInput::DI3) > 0);
}

#[test]
fn debounce_close_edges_give_one_event() {
    let mut m = InputMonitor::new(DigitalInput::DI1, 100);
    let first = m.edge_at(5000).unwrap();
    assert_eq!(first.input, DigitalInput::DI1);
    assert_eq!(first.timestamp_ms, 5000);
    assert!(m.edge_at(5099).is_none());
    assert_eq!(m.last_accepted_ms, Some(5000));
}

#[test]
fn debounce_distant_edges_give_two_events() {
    let mut m = InputMonitor::new(DigitalInput::DI6, 100);
    assert!(m.edge_at(5000).is_some());
    let second = m.edge_at(5100).unwrap();
    assert_eq!(second.input, DigitalInput::DI6);
    assert_eq!(second.timestamp_ms, 5100);
}

#[test]
fn first_edge_is_accepted_at_boot() {
    let mut m = InputMonitor::new(DigitalInput::DI2, 100);
    assert!(m.edge_at(0).is_some());
    let mut live = InputMonitor::new(DigitalInput::DI3, 60_000);
    let e = live.edge().unwrap();
    assert_eq!(e.input, DigitalInput::DI3);
    assert_eq!(live.last_accepted_ms, Some(e.timestamp_ms));
    assert!(live.edge().is_none());
}
