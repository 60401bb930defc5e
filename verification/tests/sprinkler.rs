use waterpi_sprinkler::clock::{
    instant_is_valid, last_opened_from_state, state_dir, state_path, trim, Clock, UtcInstant,
};
use waterpi_sprinkler::config::{
    Config, HaConfig, ServerConfig, SprinklerConfig, ZoneConfig,
};
use waterpi_sprinkler::sprinkler::{
    close_all, close_zone, closed_pin_level, create, expire_zone, get_all, get_zone,
    open_pin_level, open_zone, SprinklerInner, ZoneAction,
};

const SEC: u64 = 1_000_000_000;

fn config(mutex: bool, invert: bool) -> Config {
    let zone = |id: &str, gpio: u8, max: Option<u64>| ZoneConfig {
        id: id.to_string(),
        name: id.to_uppercase(),
        gpio,
        max_duration_secs: max,
        kind: if id == "z2" { Some("drip".to_string()) } else { None },
    };
    Config {
        server: ServerConfig { bind: "0.0.0.0".to_string(), port: 8090 },
        ha: HaConfig { url: "http://ha".to_string(), token: "t".to_string() },
        sprinkler: SprinklerConfig { max_duration_secs: 1800, mutex, invert_logic: invert },
        zones: vec![zone("z1", 5, None), zone("z2", 6, Some(600)), zone("z3", 13, None)],
        meters: vec![],
        switches: vec![],
        display: None,
    }
}

fn controller(mutex: bool, invert: bool) -> SprinklerInner {
    let (inner, actions) = create(&config(mutex, invert), &vec![None, None, None]);
    assert_eq!(actions.len(), 3);
    for (i, a) in actions.iter().enumerate() {
        match a {
            ZoneAction::SetPin { zone, high } => {
                assert_eq!(*zone, i);
                assert_eq!(*high, invert);
            }
            other => panic!("unexpected action {other:?}"),
        }
    }
    inner
}

/// 2024-05-01T10:00:00Z
const WALL: UtcInstant = UtcInstant { secs: 1_714_557_600, nanos: 0 };

fn at(secs: u64) -> Clock {
    Clock {
        monotonic_nanos: 1000 * SEC + secs * SEC,
        wall: UtcInstant { secs: WALL.secs + secs as i64, nanos: 0 },
    }
}

fn open_ids(inner: &SprinklerInner, now: Clock) -> Vec<String> {
    get_all(inner, now).into_iter().filter(|s| s.is_open).map(|s| s.id).collect()
}

#[test]
fn pin_levels_follow_the_relay_logic() {
    assert!(open_pin_level(false));
    assert!(!closed_pin_level(false));
    assert!(!open_pin_level(true));
    assert!(closed_pin_level(true));
}

#[test]
fn opening_a_zone_drives_persists_arms_and_pushes() {
    let mut inner = controller(true, true);
    let (status, actions) = open_zone(&mut inner, "z2", at(0)).unwrap();
    assert!(status.is_open);
    assert_eq!(status.open_duration_secs, Some(0));
    assert_eq!(status.max_duration_secs, 600);
    assert_eq!(status.kind.as_deref(), Some("drip"));
    assert_eq!(status.opened_at.as_deref(), Some("2024-05-01T10:00:00+00:00"));
    assert_eq!(status.last_opened_at.as_deref(), Some("2024-05-01T10:00:00+00:00"));
    assert_eq!(actions.len(), 4);
    assert!(matches!(actions[0], ZoneAction::SetPin { zone: 1, high: false }));
    match &actions[1] {
        ZoneAction::SaveLastOpened { zone, timestamp } => {
            assert_eq!(*zone, 1);
            assert_eq!(timestamp, "2024-05-01T10:00:00+00:00");
        }
        other => panic!("unexpected action {other:?}"),
    }
    assert!(matches!(actions[2], ZoneAction::StartTimer { zone: 1, secs: 600 }));
    match &actions[3] {
        ZoneAction::PushState { status } => assert_eq!(status.id, "z2"),
        other => panic!("unexpected action {other:?}"),
    }
}

#[test]
fn mutex_closes_the_other_zone_first() {
    let mut inner = controller(true, false);
    open_zone(&mut inner, "z1", at(0)).unwrap();
    let (status, actions) = open_zone(&mut inner, "z3", at(30)).unwrap();
    assert_eq!(status.id, "z3");
    assert_eq!(open_ids(&inner, at(31)), vec!["z3".to_string()]);
    assert_eq!(actions.len(), 7);
    assert!(matches!(actions[0], ZoneAction::SetPin { zone: 0, high: false }));
    assert!(matches!(actions[1], ZoneAction::CancelTimer { zone: 0 }));
    match &actions[2] {
        ZoneAction::PushState { status } => {
            assert_eq!(status.id, "z1");
            assert!(!status.is_open);
            assert_eq!(status.opened_at, None);
            assert_eq!(status.last_opened_at.as_deref(), Some("2024-05-01T10:00:00+00:00"));
        }
        other => panic!("unexpected action {other:?}"),
    }
    assert!(matches!(actions[3], ZoneAction::SetPin { zone: 2, high: true }));
    assert!(matches!(actions[6], ZoneAction::PushState { .. }));
}

#[test]
fn without_mutex_zones_open_together() {
    let mut inner = controller(false, false);
    open_zone(&mut inner, "z1", at(0)).unwrap();
    let (_, actions) = open_zone(&mut inner, "z2", at(5)).unwrap();
    assert_eq!(actions.len(), 4);
    assert_eq!(open_ids(&inner, at(6)), vec!["z1".to_string(), "z2".to_string()]);
}

#[test]
fn opening_an_open_zone_is_a_noop() {
    let mut inner = controller(true, true);
    open_zone(&mut inner, "z1", at(0)).unwrap();
    let (status, actions) = open_zone(&mut inner, "z1", at(90)).unwrap();
    assert!(actions.is_empty());
    assert_eq!(status.open_duration_secs, Some(90));
    assert_eq!(status.opened_at.as_deref(), Some("2024-05-01T10:00:00+00:00"));
    assert_eq!(status.last_opened_at.as_deref(), Some("2024-05-01T10:00:00+00:00"));
}

#[test]
fn closing_twice_only_reports() {
    let mut inner = controller(true, true);
    open_zone(&mut inner, "z1", at(0)).unwrap();
    let (status, actions) = close_zone(&mut inner, "z1", at(10)).unwrap();
    assert!(!status.is_open);
    assert_eq!(status.open_duration_secs, None);
    assert_eq!(actions.len(), 3);
    assert!(matches!(actions[0], ZoneAction::SetPin { zone: 0, high: true }));
    assert!(matches!(actions[1], ZoneAction::CancelTimer { zone: 0 }));
    let (_, again) = close_zone(&mut inner, "z1", at(20)).unwrap();
    assert_eq!(again.len(), 1);
    assert!(matches!(again[0], ZoneAction::PushState { .. }));
}

#[test]
fn unknown_zone_is_reported() {
    let mut inner = controller(true, true);
    assert_eq!(open_zone(&mut inner, "nope", at(0)).unwrap_err(), "Zone 'nope' not found");
    assert_eq!(close_zone(&mut inner, "nope", at(0)).unwrap_err(), "Zone 'nope' not found");
    assert_eq!(get_zone(&inner, "nope", at(0)).unwrap_err(), "Zone 'nope' not found");
    assert!(open_ids(&inner, at(0)).is_empty());
}

#[test]
fn close_all_closes_everything_then_pushes_all() {
    let mut inner = controller(false, true);
    open_zone(&mut inner, "z1", at(0)).unwrap();
    open_zone(&mut inner, "z3", at(1)).unwrap();
    let (statuses, actions) = close_all(&mut inner, at(2));
    assert_eq!(statuses.len(), 3);
    assert!(statuses.iter().all(|s| !s.is_open));
    assert_eq!(actions.len(), 4 + 3);
    assert!(matches!(actions[0], ZoneAction::SetPin { zone: 0, high: true }));
    assert!(matches!(actions[1], ZoneAction::CancelTimer { zone: 0 }));
    assert!(matches!(actions[2], ZoneAction::SetPin { zone: 2, high: true }));
    assert!(matches!(actions[3], ZoneAction::CancelTimer { zone: 2 }));
    for (k, a) in actions[4..].iter().enumerate() {
        match a {
            ZoneAction::PushState { status } => assert_eq!(status.id, format!("z{}", k + 1)),
            other => panic!("unexpected action {other:?}"),
        }
    }
    assert!(open_ids(&inner, at(3)).is_empty());
}

#[test]
fn status_reports_elapsed_time() {
    let mut inner = controller(true, true);
    open_zone(&mut inner, "z2", at(0)).unwrap();
    let s = get_zone(&inner, "z2", at(125)).unwrap();
    assert_eq!(s.open_duration_secs, Some(125));
    assert_eq!(s.opened_at.as_deref(), Some("2024-05-01T10:00:00+00:00"));
    assert_eq!(s.gpio, 6);
    assert_eq!(s.name, "Z2");
}

#[test]
fn last_opened_is_restored_at_startup() {
    let restored = last_opened_from_state(" 2024-05-01T10:00:00+00:00\n");
    assert_eq!(restored, Some(WALL));
    let (inner, _) = create(&config(true, true), &vec![restored, None, None]);
    let s = get_zone(&inner, "z1", at(0)).unwrap();
    assert_eq!(s.last_opened_at.as_deref(), Some("2024-05-01T10:00:00+00:00"));
    assert!(!s.is_open);
    assert_eq!(last_opened_from_state("not a date"), None);
    assert_eq!(last_opened_from_state(""), None);
}

#[test]
fn saved_timestamp_reads_back() {
    let mut inner = controller(true, true);
    let now = Clock { monotonic_nanos: 5, wall: UtcInstant { secs: WALL.secs, nanos: 123_456_789 } };
    let (_, actions) = open_zone(&mut inner, "z1", now).unwrap();
    let saved = actions
        .iter()
        .find_map(|a| match a {
            ZoneAction::SaveLastOpened { timestamp, .. } => Some(timestamp.clone()),
            _ => None,
        })
        .unwrap();
    assert_eq!(saved, "2024-05-01T10:00:00.123456789+00:00");
    assert_eq!(
        last_opened_from_state(&saved),
        Some(UtcInstant { secs: WALL.secs, nanos: 123_456_789 })
    );
}

#[test]
fn state_files_live_in_the_state_directory() {
    assert_eq!(state_dir(None), "/var/lib/sprinkler");
    assert_eq!(state_dir(Some("/run/x".to_string())), "/run/x");
    assert_eq!(state_path("/var/lib/sprinkler", "z1"), "/var/lib/sprinkler/z1.state");
    assert_eq!(state_path("/var/lib/sprinkler/", "z1"), "/var/lib/sprinkler/z1.state");
    assert_eq!(state_path("", "z1"), "z1.state");
    assert_eq!(state_path("/var", "/abs"), "/abs.state");
}

#[test]
fn trim_removes_unicode_white_space() {
    assert_eq!(trim("  a b \t\n"), "a b");
    assert_eq!(trim("\u{3000}x\u{a0}"), "x");
    assert_eq!(trim("   "), "");
}

#[test]
fn expiry_closes_and_still_pushes() {
    let mut inner = controller(true, true);
    open_zone(&mut inner, "z2", at(0)).unwrap();
    let (status, actions) = expire_zone(&mut inner, "z2", at(600)).unwrap();
    assert!(!status.is_open);
    assert_eq!(status.last_opened_at.as_deref(), Some("2024-05-01T10:00:00+00:00"));
    assert_eq!(actions.len(), 3);
    assert!(matches!(actions[0], ZoneAction::SetPin { zone: 1, high: true }));
    assert!(matches!(actions[1], ZoneAction::TimerDone { zone: 1 }));
    match &actions[2] {
        ZoneAction::PushState { status } => {
            assert_eq!(status.id, "z2");
            assert!(!status.is_open);
        }
        other => panic!("unexpected action {other:?}"),
    }
    assert!(open_ids(&inner, at(601)).is_empty());
    let (_, again) = expire_zone(&mut inner, "z2", at(602)).unwrap();
    assert_eq!(again.len(), 1);
    assert!(matches!(again[0], ZoneAction::PushState { .. }));
    assert_eq!(expire_zone(&mut inner, "nope", at(0)).unwrap_err(), "Zone 'nope' not found");
}

#[test]
fn far_years_are_restored_and_reported() {
    let restored = last_opened_from_state("+10000-01-01T00:00:00+00:00");
    assert_eq!(restored, Some(UtcInstant { secs: 253_402_300_800, nanos: 0 }));
    let early = last_opened_from_state("1500-06-01T12:00:00+00:00");
    assert!(early.is_some());
    let (inner, _) = create(&config(true, true), &vec![restored, early, None]);
    assert!(inner.clock_fits(at(0)));
    let s = get_zone(&inner, "z1", at(0)).unwrap();
    assert_eq!(s.last_opened_at.as_deref(), Some("+10000-01-01T00:00:00+00:00"));
    let s = get_zone(&inner, "z2", at(0)).unwrap();
    assert_eq!(s.last_opened_at.as_deref(), Some("1500-06-01T12:00:00+00:00"));
}

#[test]
fn leap_seconds_round_trip() {
    let leap = last_opened_from_state("2016-12-31T23:59:60.5+00:00");
    assert_eq!(leap, Some(UtcInstant { secs: 1_483_228_799, nanos: 1_500_000_000 }));
    let (inner, _) = create(&config(true, true), &vec![None, None, leap]);
    let s = get_zone(&inner, "z3", at(0)).unwrap();
    assert_eq!(s.last_opened_at.as_deref(), Some("2016-12-31T23:59:60.500+00:00"));
}

#[test]
fn instants_chrono_can_hold() {
    assert!(instant_is_valid(WALL));
    assert!(instant_is_valid(UtcInstant { secs: 59, nanos: 1_999_999_999 }));
    assert!(!instant_is_valid(UtcInstant { secs: 58, nanos: 1_000_000_000 }));
    assert!(!instant_is_valid(UtcInstant { secs: 59, nanos: 2_000_000_000 }));
    assert!(instant_is_valid(UtcInstant { secs: -8_334_601_228_800, nanos: 0 }));
    assert!(!instant_is_valid(UtcInstant { secs: -8_334_601_228_801, nanos: 0 }));
    assert!(instant_is_valid(UtcInstant { secs: 8_210_266_876_799, nanos: 0 }));
    assert!(!instant_is_valid(UtcInstant { secs: 8_210_266_876_800, nanos: 0 }));
    assert!(!instant_is_valid(UtcInstant { secs: i64::MIN, nanos: 0 }));
}
