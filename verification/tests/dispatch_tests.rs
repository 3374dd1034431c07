use protohackers::dispatch::{accept_step, datagram_has_payload, AcceptAction, ControlAction, Dispatcher, PumpOutcome};

#[test]
fn accept_stage_classifies_pump_outcomes() {
    assert_eq!(accept_step(&PumpOutcome::Connection), AcceptAction::Forward);
    assert_eq!(accept_step(&PumpOutcome::Transient), AcceptAction::Retry);
    assert_eq!(accept_step(&PumpOutcome::Fatal), AcceptAction::Stop);
}

#[test]
fn datagram_peek_needs_payload() {
    assert!(!datagram_has_payload(0));
    assert!(datagram_has_payload(1));
    assert!(datagram_has_payload(512));
}

#[test]
fn connections_are_dispatched_in_arrival_order() {
    let mut d = Dispatcher::new();
    d.connection_arrived(11);
    d.connection_arrived(22);
    d.connection_arrived(33);
    assert_eq!(d.control_step(), ControlAction::Spawn(11));
    assert_eq!(d.control_step(), ControlAction::Spawn(22));
    assert_eq!(d.control_step(), ControlAction::Spawn(33));
    assert_eq!(d.active_workers(), 3);
    assert_eq!(d.control_step(), ControlAction::Wait);
}

#[test]
fn drain_completes_after_listener_failure() {
    // A mock listener yields three connections, then fails fatally: once the
    // workers finish, the dispatcher initiates shutdown on the closed queue,
    // drains cleanly and reports completion.
    let mut d = Dispatcher::new();
    for id in 1..=3u64 {
        d.connection_arrived(id);
    }
    d.accept_stage_closed();
    loop {
        match d.control_step() {
            ControlAction::Spawn(_) => {
                // the mock handler finishes at once
                d.worker_finished();
            }
            ControlAction::Wait => {}
            ControlAction::Drain => break,
        }
    }
    assert!(d.is_shutdown_initiated());
    assert_eq!(d.active_workers(), 0);
    assert!(!d.drain_should_wait(false));
    let clean = d.finish_drain();
    assert!(clean);
    assert!(d.is_shutdown_complete());
    assert_eq!(d.active_workers(), 0);
}

#[test]
fn spawn_failure_rolls_the_count_back() {
    let mut d = Dispatcher::new();
    d.connection_arrived(7);
    assert_eq!(d.control_step(), ControlAction::Spawn(7));
    assert_eq!(d.active_workers(), 1);
    d.worker_spawn_failed();
    assert_eq!(d.active_workers(), 0);
}

#[test]
fn external_initiation_wins_once_and_stops_dispatch() {
    let mut d = Dispatcher::new();
    d.connection_arrived(5);
    assert!(d.initiate_shutdown());
    assert!(!d.initiate_shutdown());
    // once initiated, nothing more is dequeued
    assert_eq!(d.control_step(), ControlAction::Drain);
    assert!(!d.is_shutdown_complete());
    let clean = d.finish_drain();
    assert!(clean);
    assert!(d.is_shutdown_complete());
}

#[test]
fn drain_waits_only_for_active_workers_within_grace() {
    let mut d = Dispatcher::new();
    d.connection_arrived(1);
    d.control_step();
    d.initiate_shutdown();
    assert!(d.drain_should_wait(false));
    assert!(!d.drain_should_wait(true));
    let clean = d.finish_drain();
    assert!(!clean);
    assert!(d.is_shutdown_complete());
}
