//! Unit tests for the configuration record, event decoding, and the
//! individual supervisor steps.

use hyprps::config::Config;
use hyprps::event::{decode_event, DeviceEvent};
use hyprps::supervisor::{FatalError, Phase, Supervisor};

fn sample_config() -> Config {
    Config::new(
        "/dev/input/event7".to_owned(),
        "game-launcher".to_owned(),
        Some("--lounge".to_owned()),
        "AA:BB:CC:DD:EE:FF".to_owned(),
    )
}

#[test]
fn getters_return_the_fields() {
    let cfg = sample_config();
    assert_eq!(cfg.get_device(), "/dev/input/event7");
    assert_eq!(cfg.get_launcher(), "game-launcher");
    assert_eq!(cfg.get_mac(), "AA:BB:CC:DD:EE:FF");
    assert_eq!(cfg.get_lounge(), Some("--lounge"));
}

#[test]
fn lounge_is_optional() {
    let cfg = Config::new("/dev/a".to_owned(), "x".to_owned(), None, "m".to_owned());
    assert_eq!(cfg.get_lounge(), None);
    assert!(cfg.validate());
}

#[test]
fn validate_accepts_a_complete_config() {
    assert!(sample_config().validate());
}

#[test]
fn validate_rejects_empty_device_path() {
    let cfg = Config::new("".to_owned(), "x".to_owned(), None, "m".to_owned());
    assert!(!cfg.validate());
}

#[test]
fn validate_rejects_empty_launcher() {
    let cfg = Config::new("/dev/a".to_owned(), "".to_owned(), None, "m".to_owned());
    assert!(!cfg.validate());
}

#[test]
fn decode_add_with_node() {
    let ev = decode_event("add", Some("/dev/input/event7".to_owned()));
    assert_eq!(ev, DeviceEvent::Added("/dev/input/event7".to_owned()));
}

#[test]
fn decode_remove_with_node() {
    let ev = decode_event("remove", Some("/dev/input/event7".to_owned()));
    assert_eq!(ev, DeviceEvent::Removed("/dev/input/event7".to_owned()));
}

#[test]
fn decode_other_action() {
    let ev = decode_event("change", Some("/dev/input/event7".to_owned()));
    assert_eq!(ev, DeviceEvent::Other);
}

#[test]
fn decode_without_node() {
    assert_eq!(decode_event("add", None), DeviceEvent::Other);
    assert_eq!(decode_event("remove", None), DeviceEvent::Other);
}

#[test]
fn observe_event_starts_only_on_matching_arrival() {
    let cfg = sample_config();
    let mut sup = Supervisor::new(&cfg);
    let miss = DeviceEvent::Removed("/dev/input/event7".to_owned());
    assert!(!sup.observe_event(&cfg, &miss));
    assert_eq!(sup.phase, Phase::Idle);
    let hit = DeviceEvent::Added("/dev/input/event7".to_owned());
    assert!(sup.observe_event(&cfg, &hit));
    assert_eq!(sup.phase, Phase::Checking);
}

#[test]
fn steps_follow_the_cycle_order() {
    let cfg = sample_config();
    let mut sup = Supervisor::new(&cfg);
    let hit = DeviceEvent::Added("/dev/input/event7".to_owned());
    assert!(sup.observe_event(&cfg, &hit));
    assert!(sup.single_instance_check(false));
    assert_eq!(sup.phase, Phase::Spawning);
    assert!(sup.record_spawn(true).is_ok());
    assert_eq!(sup.phase, Phase::Waiting);
    sup.record_child_exit();
    assert_eq!(sup.phase, Phase::Disconnecting);
    assert!(sup.record_disconnect(&cfg, true).is_ok());
    assert_eq!(sup.phase, Phase::Idle);
    assert_eq!(sup.spawns, 1);
    assert_eq!(sup.disconnects, 1);
}

#[test]
fn single_instance_check_returns_to_idle_when_running() {
    let cfg = sample_config();
    let mut sup = Supervisor::new(&cfg);
    let hit = DeviceEvent::Added("/dev/input/event7".to_owned());
    assert!(sup.observe_event(&cfg, &hit));
    assert!(!sup.single_instance_check(true));
    assert_eq!(sup.phase, Phase::Idle);
    assert_eq!(sup.spawns, 0);
}

#[test]
fn failed_disconnect_reports_the_address() {
    let cfg = sample_config();
    let mut sup = Supervisor::new(&cfg);
    let hit = DeviceEvent::Added("/dev/input/event7".to_owned());
    assert!(sup.observe_event(&cfg, &hit));
    assert!(sup.single_instance_check(false));
    assert!(sup.record_spawn(true).is_ok());
    sup.record_child_exit();
    let err = sup.record_disconnect(&cfg, false).unwrap_err();
    assert_eq!(err.mac, "AA:BB:CC:DD:EE:FF");
    assert_eq!(sup.phase, Phase::Failed(FatalError::Disconnect));
}

#[test]
fn failed_spawn_reports_the_error() {
    let cfg = sample_config();
    let mut sup = Supervisor::new(&cfg);
    let hit = DeviceEvent::Added("/dev/input/event7".to_owned());
    assert!(sup.observe_event(&cfg, &hit));
    assert!(sup.single_instance_check(false));
    assert_eq!(sup.record_spawn(false), Err(FatalError::Spawn));
    assert_eq!(sup.phase, Phase::Failed(FatalError::Spawn));
    assert_eq!(sup.spawns, 0);
}
