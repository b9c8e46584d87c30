//! End-to-end scenarios for the supervisor state machine, driven with
//! fixed outside answers in place of the real process table, spawner and
//! disconnect command.

use hyprps::config::Config;
use hyprps::event::DeviceEvent;
use hyprps::supervisor::{FatalError, Phase, Supervisor};
use hyprps::trace::CycleEnv;

fn sample_config() -> Config {
    Config::new(
        "/dev/input/event7".to_owned(),
        "game-launcher".to_owned(),
        None,
        "AA:BB:CC:DD:EE:FF".to_owned(),
    )
}

fn ok_env() -> CycleEnv {
    CycleEnv { running: false, spawn_ok: true, disconnect_ok: true }
}

#[test]
fn matching_arrival_spawns_then_disconnects() {
    let cfg = sample_config();
    let mut sup = Supervisor::new(&cfg);
    let ev = DeviceEvent::Added("/dev/input/event7".to_owned());
    let r = sup.handle_event(&cfg, &ev, ok_env());
    assert!(r.is_ok());
    assert_eq!(sup.spawns, 1);
    assert_eq!(sup.disconnects, 1);
    assert_eq!(sup.phase, Phase::Idle);
}

#[test]
fn non_matching_arrival_does_nothing() {
    let cfg = sample_config();
    let mut sup = Supervisor::new(&cfg);
    let ev = DeviceEvent::Added("/dev/input/event3".to_owned());
    let r = sup.handle_event(&cfg, &ev, ok_env());
    assert!(r.is_ok());
    assert_eq!(sup.spawns, 0);
    assert_eq!(sup.disconnects, 0);
    assert_eq!(sup.phase, Phase::Idle);
}

#[test]
fn launcher_already_running_is_a_no_op() {
    let cfg = sample_config();
    let mut sup = Supervisor::new(&cfg);
    let ev = DeviceEvent::Added("/dev/input/event7".to_owned());
    let env = CycleEnv { running: true, spawn_ok: true, disconnect_ok: true };
    let r = sup.handle_event(&cfg, &ev, env);
    assert!(r.is_ok());
    assert_eq!(sup.spawns, 0);
    assert_eq!(sup.disconnects, 0);
    assert_eq!(sup.phase, Phase::Idle);
}

#[test]
fn spawn_failure_is_fatal_without_disconnect() {
    let cfg = sample_config();
    let mut sup = Supervisor::new(&cfg);
    let ev = DeviceEvent::Added("/dev/input/event7".to_owned());
    let env = CycleEnv { running: false, spawn_ok: false, disconnect_ok: true };
    let r = sup.handle_event(&cfg, &ev, env);
    assert_eq!(r, Err(FatalError::Spawn));
    assert_eq!(sup.spawns, 0);
    assert_eq!(sup.disconnects, 0);
    assert_eq!(sup.phase, Phase::Failed(FatalError::Spawn));
}

#[test]
fn disconnect_failure_is_fatal() {
    let cfg = sample_config();
    let mut sup = Supervisor::new(&cfg);
    let ev = DeviceEvent::Added("/dev/input/event7".to_owned());
    let env = CycleEnv { running: false, spawn_ok: true, disconnect_ok: false };
    let r = sup.handle_event(&cfg, &ev, env);
    assert_eq!(r, Err(FatalError::Disconnect));
    assert_eq!(sup.spawns, 1);
    assert_eq!(sup.disconnects, 1);
    assert_eq!(sup.phase, Phase::Failed(FatalError::Disconnect));
}

#[test]
fn empty_peripheral_address_fails_validation() {
    let cfg = Config::new(
        "/dev/input/event7".to_owned(),
        "game-launcher".to_owned(),
        None,
        "".to_owned(),
    );
    assert!(!cfg.validate());
}

#[test]
fn second_invocation_while_alive_spawns_nothing_more() {
    let cfg = sample_config();
    let mut sup = Supervisor::new(&cfg);
    let ev = DeviceEvent::Added("/dev/input/event7".to_owned());
    assert!(sup.handle_event(&cfg, &ev, ok_env()).is_ok());
    assert_eq!(sup.spawns, 1);
    // The launcher spawned by the first invocation is still alive, so the
    // second single-instance check reports it running.
    let env = CycleEnv { running: true, spawn_ok: true, disconnect_ok: true };
    assert!(sup.handle_event(&cfg, &ev, env).is_ok());
    assert_eq!(sup.spawns, 1);
    assert_eq!(sup.disconnects, 1);
}

#[test]
fn queued_removed_event_is_drained_after_the_cycle() {
    let cfg = sample_config();
    let mut sup = Supervisor::new(&cfg);
    let events = vec![
        DeviceEvent::Added("/dev/input/event7".to_owned()),
        DeviceEvent::Removed("/dev/input/event7".to_owned()),
    ];
    let envs = vec![ok_env(), ok_env()];
    let n = sup.drain_events(&cfg, &events, &envs);
    // Both queued events are processed, in order; the departure is
    // observed after the cycle and triggers nothing further.
    assert_eq!(n, 2);
    assert_eq!(sup.spawns, 1);
    assert_eq!(sup.disconnects, 1);
    assert_eq!(sup.phase, Phase::Idle);
}

#[test]
fn unmatched_stream_never_invokes_the_supervisor() {
    let cfg = sample_config();
    let mut sup = Supervisor::new(&cfg);
    let events = vec![
        DeviceEvent::Added("/dev/input/event3".to_owned()),
        DeviceEvent::Removed("/dev/input/event3".to_owned()),
        DeviceEvent::Other,
        DeviceEvent::Removed("/dev/input/event7".to_owned()),
    ];
    let envs = vec![ok_env(), ok_env(), ok_env(), ok_env()];
    let n = sup.drain_events(&cfg, &events, &envs);
    assert_eq!(n, 4);
    assert_eq!(sup.spawns, 0);
    assert_eq!(sup.disconnects, 0);
    assert_eq!(sup.phase, Phase::Idle);
}

#[test]
fn drain_stops_at_the_first_fatal_event() {
    let cfg = sample_config();
    let mut sup = Supervisor::new(&cfg);
    let events = vec![
        DeviceEvent::Added("/dev/input/event7".to_owned()),
        DeviceEvent::Removed("/dev/input/event7".to_owned()),
    ];
    let envs = vec![
        CycleEnv { running: false, spawn_ok: false, disconnect_ok: true },
        ok_env(),
    ];
    let n = sup.drain_events(&cfg, &events, &envs);
    assert_eq!(n, 1);
    assert_eq!(sup.phase, Phase::Failed(FatalError::Spawn));
}
