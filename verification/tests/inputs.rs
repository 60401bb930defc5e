use waterpi_sprinkler::api::{health, rejection_status, Endpoint};
use waterpi_sprinkler::config::{
    Config, HaConfig, MeterConfig, ServerConfig, SprinklerConfig, SwitchConfig, ZoneConfig,
};
use waterpi_sprinkler::ha::{
    event_accepted, meter_pulse_event, switch_update_event, zone_update_event, HaClient,
};
use waterpi_sprinkler::meter::{self, pulse_debounce_ms, MeterDescriptor};
use waterpi_sprinkler::switch::{
    self, debounce_window, edge_is_on, get_switch, is_on, DEFAULT_DEBOUNCE_MS,
};

fn config() -> Config {
    Config {
        server: ServerConfig { bind: "0.0.0.0".to_string(), port: 8090 },
        ha: HaConfig { url: "http://ha".to_string(), token: "t".to_string() },
        sprinkler: SprinklerConfig { max_duration_secs: 1800, mutex: true, invert_logic: true },
        zones: vec![ZoneConfig {
            id: "z1".to_string(),
            name: "Z1".to_string(),
            gpio: 5,
            max_duration_secs: None,
            kind: None,
        }],
        meters: vec![
            MeterConfig {
                id: "water".to_string(),
                name: "Eau".to_string(),
                gpio: 17,
                unit: None,
                device_class: Some("water".to_string()),
                debounce_ms: None,
                increment_per_pulse: None,
            },
            MeterConfig {
                id: "gas".to_string(),
                name: "Gaz".to_string(),
                gpio: 27,
                unit: Some("m3".to_string()),
                device_class: None,
                debounce_ms: Some(20),
                increment_per_pulse: Some(10),
            },
        ],
        switches: vec![
            SwitchConfig {
                id: "s1".to_string(),
                name: "Été".to_string(),
                gpio: 22,
                debounce_ms: None,
                inverted: None,
            },
            SwitchConfig {
                id: "s2".to_string(),
                name: "Pompe".to_string(),
                gpio: 23,
                debounce_ms: Some(0),
                inverted: Some(true),
            },
        ],
        display: None,
    }
}

#[test]
fn switch_state_follows_level_and_inversion() {
    assert!(is_on(true, false));
    assert!(!is_on(false, false));
    assert!(!is_on(true, true));
    assert!(is_on(false, true));
    assert!(edge_is_on(true, false));
    assert!(!edge_is_on(false, false));
    assert!(!edge_is_on(true, true));
}

#[test]
fn switches_take_their_defaults() {
    let sw = switch::create(&config());
    assert_eq!(sw.len(), 2);
    assert_eq!(sw.debounce_ms(0), DEFAULT_DEBOUNCE_MS);
    assert!(!sw.inverted(0));
    assert_eq!(sw.debounce_ms(1), 0);
    assert!(sw.inverted(1));
    assert_eq!(debounce_window(50), Some(50));
    assert_eq!(debounce_window(0), None);
    let all = switch::get_all(&sw, &vec![true, true]);
    assert_eq!(all.len(), 2);
    assert!(all[0].is_on);
    assert!(!all[1].is_on);
    assert_eq!(all[0].name, "Été");
    assert_eq!(all[1].gpio, 23);
    let s2 = get_switch(&sw, "s2", &vec![false, false]).unwrap();
    assert!(s2.is_on);
    assert_eq!(get_switch(&sw, "s9", &vec![false, false]).unwrap_err(), "Switch 's9' not found");
}

#[test]
fn meters_take_their_defaults_and_sort_by_id() {
    let c = config();
    let water = meter::descriptor(&c.meters[0]);
    assert_eq!(water.unit, "L");
    assert_eq!(water.increment_per_pulse, 1);
    assert_eq!(pulse_debounce_ms(&c.meters[0]), 200);
    assert_eq!(pulse_debounce_ms(&c.meters[1]), 20);
    let m = meter::create(&c);
    let ids: Vec<String> = m.all_descriptors().into_iter().map(|d: MeterDescriptor| d.id).collect();
    assert_eq!(ids, vec!["gas".to_string(), "water".to_string()]);
    let gas = m.get("gas").unwrap();
    assert_eq!(gas.unit, "m3");
    assert_eq!(gas.increment_per_pulse, 10);
    assert!(m.get("power").is_none());
}

#[test]
fn ha_urls_and_headers() {
    let ha = HaClient::new("http://pi5:8123//", "SECRET-REDACTED");
    assert_eq!(ha.event_url(zone_update_event()), "http://pi5:8123/api/events/waterpi_sprinkler_update");
    assert_eq!(ha.event_url(switch_update_event()), "http://pi5:8123/api/events/waterpi_switch_update");
    assert_eq!(meter_pulse_event(), "waterpi_meter_pulse");
    assert_eq!(ha.state_url("weather.maison"), "http://pi5:8123/api/states/weather.maison");
    assert_eq!(ha.authorization(), "Bearer SECRET-REDACTED");
    assert!(event_accepted(200));
    assert!(event_accepted(201));
    assert!(!event_accepted(199));
    assert!(!event_accepted(300));
    assert!(!event_accepted(401));
}

#[test]
fn refused_requests_get_their_status() {
    assert_eq!(rejection_status(Endpoint::GetZone), 404);
    assert_eq!(rejection_status(Endpoint::GetSwitch), 404);
    assert_eq!(rejection_status(Endpoint::OpenZone), 400);
    assert_eq!(rejection_status(Endpoint::CloseZone), 400);
    assert_eq!(health(), "ok");
}

#[test]
fn meters_sharing_an_id_keep_configuration_order() {
    let mut c = config();
    let extra = |id: &str, name: &str, gpio: u8| MeterConfig {
        id: id.to_string(),
        name: name.to_string(),
        gpio,
        unit: None,
        device_class: None,
        debounce_ms: None,
        increment_per_pulse: None,
    };
    c.meters = vec![
        extra("b", "first b", 1),
        extra("a", "only a", 2),
        extra("b", "second b", 3),
        extra("b", "third b", 4),
    ];
    let m = meter::create(&c);
    let names: Vec<String> =
        m.all_descriptors().into_iter().map(|d: MeterDescriptor| d.name).collect();
    assert_eq!(names, vec!["only a", "first b", "second b", "third b"]);
}
