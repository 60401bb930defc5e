use waterpi_sprinkler::config::{
    default_bind, default_i2c_address, default_i2c_bus, default_max_duration, default_port,
    default_refresh_secs, default_true, default_weather_refresh_secs, Config, ConfigError,
    DisplayConfig, DisplayDriver, EntityKind, HaConfig, MeterConfig, ServerConfig,
    SprinklerConfig, SwitchConfig, ZoneConfig,
};

/// The configuration of the `[server]`, `[ha]`, `[sprinkler]` and single
/// `[[zones]]` sections used as the base of every case:
/// port 8090, HA at "http://ha" with token "t", defaults for the sprinkler,
/// and zone "z1" ("Z1") on GPIO 5.
fn base() -> Config {
    Config {
        server: ServerConfig { bind: default_bind(), port: 8090 },
        ha: HaConfig { url: "http://ha".to_string(), token: "t".to_string() },
        sprinkler: SprinklerConfig {
            max_duration_secs: default_max_duration(),
            mutex: default_true(),
            invert_logic: default_true(),
        },
        zones: vec![zone("z1", 5)],
        meters: vec![],
        switches: vec![],
        display: None,
    }
}

fn zone(id: &str, gpio: u8) -> ZoneConfig {
    ZoneConfig {
        id: id.to_string(),
        name: id.to_uppercase(),
        gpio,
        max_duration_secs: None,
        kind: None,
    }
}

fn meter(id: &str, gpio: u8) -> MeterConfig {
    MeterConfig {
        id: id.to_string(),
        name: id.to_string(),
        gpio,
        unit: None,
        device_class: None,
        debounce_ms: None,
        increment_per_pulse: None,
    }
}

fn switch(id: &str, gpio: u8) -> SwitchConfig {
    SwitchConfig { id: id.to_string(), name: id.to_string(), gpio, debounce_ms: None, inverted: None }
}

/// An empty `[display]` section: every field at its default.
fn display_section() -> DisplayConfig {
    DisplayConfig {
        enabled: default_true(),
        i2c_bus: default_i2c_bus(),
        address: default_i2c_address(),
        driver: None,
        reset_gpio: None,
        contrast: None,
        weather_entity: None,
        refresh_secs: default_refresh_secs(),
        weather_refresh_secs: default_weather_refresh_secs(),
    }
}

fn error_text(c: &Config) -> String {
    c.validate().unwrap_err().message()
}

#[test]
fn unknown_display_driver_is_rejected() {
    let mut c = base();
    let mut d = display_section();
    d.driver = Some("sh1106".to_string());
    c.display = Some(d);
    let err = error_text(&c);
    assert!(err.contains("display.driver"), "{err}");
}

#[test]
fn reset_gpio_requires_ssd1309() {
    let mut c = base();
    let mut d = display_section();
    d.reset_gpio = Some(4);
    c.display = Some(d);
    let err = error_text(&c);
    assert!(err.contains("reset_gpio requires"), "{err}");
}

#[test]
fn reset_gpio_collision_is_rejected() {
    let mut c = base();
    let mut d = display_section();
    d.driver = Some("ssd1309".to_string());
    d.reset_gpio = Some(5);
    c.display = Some(d);
    let err = error_text(&c);
    assert!(err.contains("Duplicate GPIO 5"), "{err}");
}

#[test]
fn valid_ssd1309_config_parses() {
    let mut c = base();
    let mut d = display_section();
    d.driver = Some("ssd1309".to_string());
    d.reset_gpio = Some(4);
    d.contrast = Some(255);
    c.display = Some(d);
    assert!(c.validate().is_ok());
    let d = c.display.unwrap();
    assert_eq!(d.driver(), DisplayDriver::Ssd1309);
    assert_eq!(d.reset_gpio, Some(4));
    assert_eq!(d.contrast, Some(255));
}

#[test]
fn defaults_match_the_documented_values() {
    assert_eq!(default_bind(), "0.0.0.0");
    assert_eq!(default_port(), 8090);
    assert_eq!(default_i2c_bus(), 1);
    assert_eq!(default_i2c_address(), 0x3C);
    assert_eq!(default_refresh_secs(), 1);
    assert_eq!(default_weather_refresh_secs(), 300);
    assert_eq!(default_max_duration(), 1800);
    assert!(default_true());
}

#[test]
fn driver_names() {
    assert_eq!(DisplayDriver::Ssd1306.name(), "ssd1306");
    assert_eq!(DisplayDriver::Ssd1309.name(), "ssd1309");
    let mut d = display_section();
    assert_eq!(d.driver(), DisplayDriver::Ssd1306);
    d.driver = Some("ssd1306".to_string());
    assert_eq!(d.driver(), DisplayDriver::Ssd1306);
    d.driver = Some("ssd1309".to_string());
    assert_eq!(d.driver(), DisplayDriver::Ssd1309);
}

#[test]
fn zone_max_duration_falls_back_to_default() {
    let mut z = zone("z", 1);
    assert_eq!(z.max_duration(1800), 1800);
    z.max_duration_secs = Some(600);
    assert_eq!(z.max_duration(1800), 600);
}

#[test]
fn base_config_is_valid() {
    assert!(base().validate().is_ok());
    let mut c = base();
    c.display = Some(display_section());
    assert!(c.validate().is_ok());
}

#[test]
fn no_zone_is_rejected() {
    let mut c = base();
    c.zones.clear();
    assert!(matches!(c.validate(), Err(ConfigError::NoZones)));
    assert_eq!(error_text(&c), "At least one zone must be configured");
}

#[test]
fn duplicate_ids_are_rejected_across_sections() {
    let mut c = base();
    c.zones.push(zone("z1", 6));
    assert_eq!(error_text(&c), "Duplicate id: z1 (zone)");

    let mut c = base();
    c.meters.push(meter("z1", 7));
    assert_eq!(error_text(&c), "Duplicate id: z1 (meter)");

    let mut c = base();
    c.switches.push(switch("z1", 8));
    assert!(matches!(
        c.validate(),
        Err(ConfigError::DuplicateId { kind: EntityKind::Switch, .. })
    ));
    assert_eq!(error_text(&c), "Duplicate id: z1 (switch)");
}

#[test]
fn duplicate_gpios_are_rejected_across_sections() {
    let mut c = base();
    c.zones.push(zone("z2", 5));
    assert_eq!(error_text(&c), "Duplicate GPIO 5 (zone 'z2')");

    let mut c = base();
    c.meters.push(meter("m1", 5));
    assert_eq!(error_text(&c), "Duplicate GPIO 5 (meter 'm1')");

    let mut c = base();
    c.switches.push(switch("s1", 5));
    assert_eq!(error_text(&c), "Duplicate GPIO 5 (switch 's1')");

    let mut c = base();
    c.zones.push(zone("z2", 213));
    c.switches.push(switch("s1", 213));
    assert_eq!(error_text(&c), "Duplicate GPIO 213 (switch 's1')");
}

#[test]
fn id_clash_is_reported_before_gpio_clash() {
    let mut c = base();
    c.zones.push(zone("z1", 5));
    assert_eq!(error_text(&c), "Duplicate id: z1 (zone)");
}

#[test]
fn display_intervals_are_checked() {
    let mut c = base();
    let mut d = display_section();
    d.refresh_secs = 0;
    c.display = Some(d);
    assert_eq!(error_text(&c), "display.refresh_secs must be >= 1");

    let mut c = base();
    let mut d = display_section();
    d.weather_refresh_secs = 9;
    c.display = Some(d);
    assert_eq!(error_text(&c), "display.weather_refresh_secs must be >= 10");

    let mut c = base();
    let mut d = display_section();
    d.weather_refresh_secs = 10;
    c.display = Some(d);
    assert!(c.validate().is_ok());
}

#[test]
fn full_error_texts() {
    let mut c = base();
    let mut d = display_section();
    d.driver = Some("sh1106".to_string());
    c.display = Some(d);
    assert_eq!(
        error_text(&c),
        "display.driver must be \"ssd1306\" or \"ssd1309\", got \"sh1106\""
    );

    let mut c = base();
    let mut d = display_section();
    d.reset_gpio = Some(4);
    c.display = Some(d);
    assert_eq!(error_text(&c), "display.reset_gpio requires driver = \"ssd1309\"");

    let mut c = base();
    let mut d = display_section();
    d.driver = Some("ssd1309".to_string());
    d.reset_gpio = Some(5);
    c.display = Some(d);
    assert_eq!(error_text(&c), "Duplicate GPIO 5 (display reset)");
}
