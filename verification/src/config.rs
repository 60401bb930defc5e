//! Daemon configuration: the settings read from the TOML file, their
//! defaults, and the consistency checks run before anything touches a GPIO.
//!
//! Reading the file and decoding the TOML text into these types is done by
//! the application; `Config::validate` is the part that decides whether a
//! decoded configuration is accepted, and which error is reported first.
use std::collections::HashSet;
use vstd::prelude::*;
use vstd::std_specs::hash::*;
use crate::text::{push_char, push_decimal, push_str, decimal};

verus! {

broadcast use {axiom_u8_obeys_hash_table_key_model, axiom_random_state_builds_valid_hashers};

#[derive(Debug, Clone)]
pub struct Config {
    pub server: ServerConfig,
    pub ha: HaConfig,
    pub sprinkler: SprinklerConfig,
    pub zones: Vec<ZoneConfig>,
    pub meters: Vec<MeterConfig>,
    pub switches: Vec<SwitchConfig>,
    pub display: Option<DisplayConfig>,
}

#[derive(Debug, Clone)]
pub struct ServerConfig {
    pub bind: String,
    pub port: u16,
}

#[derive(Debug, Clone)]
pub struct HaConfig {
    pub url: String,
    pub token: String,
}

#[derive(Debug, Clone)]
pub struct SprinklerConfig {
    pub max_duration_secs: u64,
    pub mutex: bool,
    pub invert_logic: bool,
}

#[derive(Debug, Clone)]
pub struct ZoneConfig {
    pub id: String,
    pub name: String,
    pub gpio: u8,
    pub max_duration_secs: Option<u64>,
    /// Icon hint for the HA valve entity ("sprinkler", "drip", "hose", …).
    pub kind: Option<String>,
}

#[derive(Debug, Clone)]
pub struct MeterConfig {
    pub id: String,
    pub name: String,
    pub gpio: u8,
    /// Unit of the meter (e.g. "L"). Defaults to "L".
    pub unit: Option<String>,
    /// HA device_class for the sensor (e.g. "water").
    pub device_class: Option<String>,
    /// Debounce window for the pulse input. Defaults to 200ms.
    pub debounce_ms: Option<u64>,
    /// Value added to the HA sensor at each pulse. Defaults to 1.
    pub increment_per_pulse: Option<u64>,
}

#[derive(Debug, Clone)]
pub struct SwitchConfig {
    pub id: String,
    pub name: String,
    pub gpio: u8,
    /// Debounce window in ms. Defaults to 50. 0 disables kernel debounce.
    pub debounce_ms: Option<u64>,
    /// Invert the on/off mapping (default: closed to GND = ON).
    pub inverted: Option<bool>,
}

#[derive(Debug, Clone)]
pub struct DisplayConfig {
    pub enabled: bool,
    /// I2C bus number (/dev/i2c-N). Defaults to 1.
    pub i2c_bus: u8,
    /// I2C address of the panel. Defaults to 0x3C.
    pub address: u8,
    /// OLED driver: "ssd1306" (0.96", default) or "ssd1309" (2.42").
    pub driver: Option<String>,
    /// BCM GPIO wired to the panel's RST/RES pin (ssd1309 only).
    pub reset_gpio: Option<u8>,
    /// Contrast 0-255 applied at init (default: the driver's init default).
    pub contrast: Option<u8>,
    /// HA weather entity shown on the idle view; None shows a clock.
    pub weather_entity: Option<String>,
    /// Render interval in seconds. Defaults to 1.
    pub refresh_secs: u64,
    /// Weather poll interval in seconds. Defaults to 300.
    pub weather_refresh_secs: u64,
}

#[derive(Debug, Clone, Copy, PartialEq, Eq, Structural)]
pub enum DisplayDriver {
    Ssd1306,
    Ssd1309,
}

impl DisplayDriver {
    pub fn name(self) -> (n: &'static str)
        ensures
            n@ == (match self {
                DisplayDriver::Ssd1306 => "ssd1306"@,
                DisplayDriver::Ssd1309 => "ssd1309"@,
            }),
    {
        match self {
            DisplayDriver::Ssd1306 => "ssd1306",
            DisplayDriver::Ssd1309 => "ssd1309",
        }
    }
}

/// The driver a display configuration selects: "ssd1309" when named so,
/// the ssd1306 otherwise.
pub open spec fn driver_of(d: DisplayConfig) -> DisplayDriver {
    if d.driver is Some && d.driver->0@ == "ssd1309"@ {
        DisplayDriver::Ssd1309
    } else {
        DisplayDriver::Ssd1306
    }
}

impl DisplayConfig {
    /// Parsed driver; validation guarantees the string is valid.
    pub fn driver(&self) -> (d: DisplayDriver)
        ensures
            d == driver_of(*self),
    {
        match &self.driver {
            Some(name) => {
                if *name == String::from_str("ssd1309") {
                    DisplayDriver::Ssd1309
                } else {
                    DisplayDriver::Ssd1306
                }
            },
            None => DisplayDriver::Ssd1306,
        }
    }
}

pub fn default_bind() -> (s: String)
    ensures
        s@ == "0.0.0.0"@,
{
    String::from_str("0.0.0.0")
}

pub fn default_i2c_bus() -> (b: u8)
    ensures
        b == 1,
{
    1
}

pub fn default_i2c_address() -> (a: u8)
    ensures
        a == 0x3C,
{
    0x3C
}

pub fn default_refresh_secs() -> (s: u64)
    ensures
        s == 1,
{
    1
}

pub fn default_weather_refresh_secs() -> (s: u64)
    ensures
        s == 300,
{
    300
}

pub fn default_port() -> (p: u16)
    ensures
        p == 8090,
{
    8090
}

pub fn default_max_duration() -> (s: u64)
    ensures
        s == 1800,
{
    1800
}

pub fn default_true() -> (b: bool)
    ensures
        b,
{
    true
}

impl ZoneConfig {
    /// The zone's safety timeout in seconds: its own setting, else the
    /// sprinkler-wide default.
    pub fn max_duration(&self, default_secs: u64) -> (secs: u64)
        ensures
            secs == (match self.max_duration_secs {
                Some(s) => s,
                None => default_secs,
            }),
    {
        match self.max_duration_secs {
            Some(s) => s,
            None => default_secs,
        }
    }
}

// ---------------------------------------------------------------------------
// Validation
// ---------------------------------------------------------------------------

/// Which section of the configuration an id or GPIO belongs to.
#[derive(Debug, Clone, Copy, PartialEq, Eq, Structural)]
pub enum EntityKind {
    Zone,
    Meter,
    Switch,
}

/// Why a configuration is refused.
#[derive(Debug, Clone)]
pub enum ConfigError {
    NoZones,
    DuplicateId { id: String, kind: EntityKind },
    DuplicateGpio { gpio: u8, kind: EntityKind, id: String },
    DuplicateResetGpio { gpio: u8 },
    RefreshTooShort,
    WeatherRefreshTooShort,
    UnknownDriver { driver: String },
    ResetGpioNeedsSsd1309,
}

/// `ConfigError` with its strings taken as character sequences.
pub enum ConfigErrorView {
    NoZones,
    DuplicateId { id: Seq<char>, kind: EntityKind },
    DuplicateGpio { gpio: u8, kind: EntityKind, id: Seq<char> },
    DuplicateResetGpio { gpio: u8 },
    RefreshTooShort,
    WeatherRefreshTooShort,
    UnknownDriver { driver: Seq<char> },
    ResetGpioNeedsSsd1309,
}

impl View for ConfigError {
    type V = ConfigErrorView;

    open spec fn view(&self) -> ConfigErrorView {
        match self {
            ConfigError::NoZones => ConfigErrorView::NoZones,
            ConfigError::DuplicateId { id, kind } => ConfigErrorView::DuplicateId {
                id: id@,
                kind: *kind,
            },
            ConfigError::DuplicateGpio { gpio, kind, id } => ConfigErrorView::DuplicateGpio {
                gpio: *gpio,
                kind: *kind,
                id: id@,
            },
            ConfigError::DuplicateResetGpio { gpio } => ConfigErrorView::DuplicateResetGpio {
                gpio: *gpio,
            },
            ConfigError::RefreshTooShort => ConfigErrorView::RefreshTooShort,
            ConfigError::WeatherRefreshTooShort => ConfigErrorView::WeatherRefreshTooShort,
            ConfigError::UnknownDriver { driver } => ConfigErrorView::UnknownDriver {
                driver: driver@,
            },
            ConfigError::ResetGpioNeedsSsd1309 => ConfigErrorView::ResetGpioNeedsSsd1309,
        }
    }
}

/// An id and a GPIO line claimed by one zone, meter or switch.
pub type Claim = (Seq<char>, u8, EntityKind);

/// The claims of all zones, then all meters, then all switches, in file order.
pub open spec fn claims(cfg: Config) -> Seq<Claim> {
    cfg.zones@.map_values(|z: ZoneConfig| (z.id@, z.gpio, EntityKind::Zone))
        + cfg.meters@.map_values(|m: MeterConfig| (m.id@, m.gpio, EntityKind::Meter))
        + cfg.switches@.map_values(|s: SwitchConfig| (s.id@, s.gpio, EntityKind::Switch))
}

pub open spec fn claim_ids(cs: Seq<Claim>) -> Seq<Seq<char>> {
    cs.map_values(|c: Claim| c.0)
}

pub open spec fn claim_gpios(cs: Seq<Claim>) -> Seq<u8> {
    cs.map_values(|c: Claim| c.1)
}

/// The error raised by claim `k`, given the claims before it.
pub open spec fn claim_error(cs: Seq<Claim>, k: int) -> Option<ConfigErrorView> {
    if claim_ids(cs.take(k)).contains(cs[k].0) {
        Some(ConfigErrorView::DuplicateId { id: cs[k].0, kind: cs[k].2 })
    } else if claim_gpios(cs.take(k)).contains(cs[k].1) {
        Some(ConfigErrorView::DuplicateGpio { gpio: cs[k].1, kind: cs[k].2, id: cs[k].0 })
    } else {
        None
    }
}

/// The first error among the first `n` claims, checked in order.
pub open spec fn first_claim_error(cs: Seq<Claim>, n: nat) -> Option<ConfigErrorView>
    decreases n,
{
    if n == 0 {
        None
    } else {
        let before = first_claim_error(cs, (n - 1) as nat);
        if before is Some {
            before
        } else {
            claim_error(cs, n - 1)
        }
    }
}

/// The first error in the display section, given the GPIOs already taken.
pub open spec fn display_error(d: DisplayConfig, taken: Seq<u8>) -> Option<ConfigErrorView> {
    if d.refresh_secs < 1 {
        Some(ConfigErrorView::RefreshTooShort)
    } else if d.weather_refresh_secs < 10 {
        Some(ConfigErrorView::WeatherRefreshTooShort)
    } else if d.driver is Some && !(d.driver->0@ == "ssd1306"@ || d.driver->0@ == "ssd1309"@) {
        Some(ConfigErrorView::UnknownDriver { driver: d.driver->0@ })
    } else if d.reset_gpio is Some {
        if driver_of(d) != DisplayDriver::Ssd1309 {
            Some(ConfigErrorView::ResetGpioNeedsSsd1309)
        } else if taken.contains(d.reset_gpio->0) {
            Some(ConfigErrorView::DuplicateResetGpio { gpio: d.reset_gpio->0 })
        } else {
            None
        }
    } else {
        None
    }
}

/// The first error in a configuration, in the order the checks are made:
/// at least one zone, then each zone, meter and switch in turn (its id,
/// then its GPIO), then the display section.
pub open spec fn config_error(cfg: Config) -> Option<ConfigErrorView> {
    let cs = claims(cfg);
    if cfg.zones.len() == 0 {
        Some(ConfigErrorView::NoZones)
    } else if first_claim_error(cs, cs.len()) is Some {
        first_claim_error(cs, cs.len())
    } else {
        match cfg.display {
            Some(d) => display_error(d, claim_gpios(cs)),
            None => None,
        }
    }
}

/// A configuration the daemon accepts, stated without reference to the
/// order in which the checks are made.
pub open spec fn acceptable(cfg: Config) -> bool {
    let cs = claims(cfg);
    &&& cfg.zones.len() > 0
    &&& forall|i: int, j: int| 0 <= i < j < cs.len() ==> cs[i].0 != cs[j].0
    &&& forall|i: int, j: int| 0 <= i < j < cs.len() ==> cs[i].1 != cs[j].1
    &&& match cfg.display {
        Some(d) => {
            &&& d.refresh_secs >= 1
            &&& d.weather_refresh_secs >= 10
            &&& (d.driver is Some ==> (d.driver->0@ == "ssd1306"@ || d.driver->0@ == "ssd1309"@))
            &&& (d.reset_gpio is Some ==> {
                &&& driver_of(d) == DisplayDriver::Ssd1309
                &&& forall|i: int| 0 <= i < cs.len() ==> cs[i].1 != d.reset_gpio->0
            })
        },
        None => true,
    }
}

pub open spec fn kind_word(k: EntityKind) -> Seq<char> {
    match k {
        EntityKind::Zone => "zone"@,
        EntityKind::Meter => "meter"@,
        EntityKind::Switch => "switch"@,
    }
}

/// The text reported for each configuration error.
pub open spec fn error_message(e: ConfigErrorView) -> Seq<char> {
    match e {
        ConfigErrorView::NoZones => "At least one zone must be configured"@,
        ConfigErrorView::DuplicateId { id, kind } => "Duplicate id: "@ + id + " ("@ + kind_word(
            kind,
        ) + ")"@,
        ConfigErrorView::DuplicateGpio { gpio, kind, id } => "Duplicate GPIO "@ + decimal(
            gpio as nat,
        ) + " ("@ + kind_word(kind) + " '"@ + id + "')"@,
        ConfigErrorView::DuplicateResetGpio { gpio } => "Duplicate GPIO "@ + decimal(gpio as nat)
            + " (display reset)"@,
        ConfigErrorView::RefreshTooShort => "display.refresh_secs must be >= 1"@,
        ConfigErrorView::WeatherRefreshTooShort => "display.weather_refresh_secs must be >= 10"@,
        ConfigErrorView::UnknownDriver { driver } =>
            "display.driver must be \"ssd1306\" or \"ssd1309\", got \""@ + driver + "\""@,
        ConfigErrorView::ResetGpioNeedsSsd1309 =>
            "display.reset_gpio requires driver = \"ssd1309\""@,
    }
}

fn kind_text(k: EntityKind) -> (s: &'static str)
    ensures
        s@ == kind_word(k),
{
    match k {
        EntityKind::Zone => "zone",
        EntityKind::Meter => "meter",
        EntityKind::Switch => "switch",
    }
}

impl ConfigError {
    /// The human-readable text of the error.
    pub fn message(&self) -> (m: String)
        ensures
            m@ == error_message(self@),
    {
        let mut m = String::new();
        match self {
            ConfigError::NoZones => push_str(&mut m, "At least one zone must be configured"),
            ConfigError::DuplicateId { id, kind } => {
                push_str(&mut m, "Duplicate id: ");
                push_str(&mut m, id.as_str());
                push_str(&mut m, " (");
                push_str(&mut m, kind_text(*kind));
                push_str(&mut m, ")");
            },
            ConfigError::DuplicateGpio { gpio, kind, id } => {
                push_str(&mut m, "Duplicate GPIO ");
                push_decimal(&mut m, *gpio as u64);
                push_str(&mut m, " (");
                push_str(&mut m, kind_text(*kind));
                push_str(&mut m, " '");
                push_str(&mut m, id.as_str());
                push_str(&mut m, "')");
            },
            ConfigError::DuplicateResetGpio { gpio } => {
                push_str(&mut m, "Duplicate GPIO ");
                push_decimal(&mut m, *gpio as u64);
                push_str(&mut m, " (display reset)");
            },
            ConfigError::RefreshTooShort => push_str(&mut m, "display.refresh_secs must be >= 1"),
            ConfigError::WeatherRefreshTooShort => push_str(
                &mut m,
                "display.weather_refresh_secs must be >= 10",
            ),
            ConfigError::UnknownDriver { driver } => {
                push_str(&mut m, "display.driver must be \"ssd1306\" or \"ssd1309\", got \"");
                push_str(&mut m, driver.as_str());
                push_str(&mut m, "\"");
            },
            ConfigError::ResetGpioNeedsSsd1309 => push_str(
                &mut m,
                "display.reset_gpio requires driver = \"ssd1309\"",
            ),
        }
        proof {
            assert(m@ =~= error_message(self@));
        }
        m
    }
}

/// Once an error is found among the first `n` claims, checking further
/// claims reports the same error.
proof fn lemma_first_error_stays(cs: Seq<Claim>, n: nat, m: nat)
    requires
        n <= m,
        first_claim_error(cs, n) is Some,
    ensures
        first_claim_error(cs, m) == first_claim_error(cs, n),
    decreases m - n,
{
    if n < m {
        lemma_first_error_stays(cs, n, (m - 1) as nat);
    }
}

proof fn lemma_claim_error_none(cs: Seq<Claim>, k: int)
    requires
        0 <= k < cs.len(),
    ensures
        claim_error(cs, k) is None <==> forall|i: int|
            0 <= i < k ==> cs[i].0 != cs[k].0 && cs[i].1 != cs[k].1,
{
    let before = cs.take(k);
    if claim_error(cs, k) is None {
        assert forall|i: int| 0 <= i < k implies cs[i].0 != cs[k].0 && cs[i].1 != cs[k].1 by {
            assert(claim_ids(before)[i] == cs[i].0);
            assert(claim_gpios(before)[i] == cs[i].1);
        }
    }
    if forall|i: int| 0 <= i < k ==> cs[i].0 != cs[k].0 && cs[i].1 != cs[k].1 {
        if claim_ids(before).contains(cs[k].0) {
            let j = choose|j: int| 0 <= j < claim_ids(before).len() && claim_ids(before)[j] == cs[k].0;
            assert(cs[j].0 == cs[k].0);
        }
        if claim_gpios(before).contains(cs[k].1) {
            let j = choose|j: int| 0 <= j < claim_gpios(before).len() && claim_gpios(before)[j] == cs[k].1;
            assert(cs[j].1 == cs[k].1);
        }
    }
}

proof fn lemma_no_claim_error(cs: Seq<Claim>, n: nat)
    requires
        n <= cs.len(),
    ensures
        first_claim_error(cs, n) is None <==> forall|i: int, j: int|
            0 <= i < j < n ==> cs[i].0 != cs[j].0 && cs[i].1 != cs[j].1,
    decreases n,
{
    if n > 0 {
        lemma_no_claim_error(cs, (n - 1) as nat);
        lemma_claim_error_none(cs, n - 1);
    }
}

/// A configuration passes validation exactly when it has at least one zone,
/// no id and no GPIO line is used twice among its zones, meters and
/// switches, and its display section (if any) has a refresh interval of at
/// least 1 s, a weather interval of at least 10 s, a known driver, and a
/// reset line only on an ssd1309 panel and on a GPIO nothing else uses.
pub proof fn validation_accepts_exactly(cfg: Config)
    ensures
        config_error(cfg) is None <==> acceptable(cfg),
{
    let cs = claims(cfg);
    lemma_no_claim_error(cs, cs.len());
    match cfg.display {
        Some(d) => {
            let taken = claim_gpios(cs);
            if d.reset_gpio is Some {
                let g = d.reset_gpio->0;
                if taken.contains(g) {
                    let j = choose|j: int| 0 <= j < taken.len() && taken[j] == g;
                    assert(cs[j].1 == g);
                }
                if exists|i: int| 0 <= i < cs.len() && cs[i].1 == g {
                    let i = choose|i: int| 0 <= i < cs.len() && cs[i].1 == g;
                    assert(taken[i] == g);
                }
            }
        },
        None => {},
    }
}

/// Records the claim of one zone, meter or switch, refusing a repeated id
/// or GPIO line.
fn check_claim(
    seen_ids: &mut Vec<String>,
    seen_gpios: &mut HashSet<u8>,
    id: &String,
    gpio: u8,
    kind: EntityKind,
    Ghost(cs): Ghost<Seq<Claim>>,
    Ghost(k): Ghost<int>,
) -> (r: Result<(), ConfigError>)
    requires
        0 <= k < cs.len(),
        cs[k] == (id@, gpio, kind),
        old(seen_ids)@.map_values(|s: String| s@) == claim_ids(cs.take(k)),
        forall|g: u8| old(seen_gpios)@.contains(g) <==> claim_gpios(cs.take(k)).contains(g),
    ensures
        match r {
            Ok(()) => {
                &&& claim_error(cs, k) is None
                &&& final(seen_ids)@.map_values(|s: String| s@) == claim_ids(cs.take(k + 1))
                &&& forall|g: u8|
                    final(seen_gpios)@.contains(g) <==> claim_gpios(cs.take(k + 1)).contains(g)
            },
            Err(e) => claim_error(cs, k) == Some(e@),
        },
{
    let ghost before = cs.take(k);
    let mut i: usize = 0;
    while i < seen_ids.len()
        invariant
            seen_ids@.map_values(|s: String| s@) == claim_ids(before),
            before == cs.take(k),
            0 <= k < cs.len(),
            cs[k] == (id@, gpio, kind),
            i <= seen_ids@.len(),
            forall|j: int| 0 <= j < i ==> seen_ids@[j]@ != id@,
        decreases seen_ids@.len() - i,
    {
        if seen_ids[i] == *id {
            proof {
                assert(claim_ids(before)[i as int] == id@);
                assert(claim_ids(before).contains(id@));
            }
            return Err(ConfigError::DuplicateId { id: id.clone(), kind });
        }
        i = i + 1;
    }
    proof {
        if claim_ids(before).contains(id@) {
            let j = choose|j: int| 0 <= j < claim_ids(before).len() && claim_ids(before)[j] == id@;
            assert(seen_ids@.map_values(|s: String| s@)[j] == seen_ids@[j]@);
        }
    }
    if !seen_gpios.insert(gpio) {
        return Err(ConfigError::DuplicateGpio { gpio, kind, id: id.clone() });
    }
    seen_ids.push(id.clone());
    proof {
        let after = cs.take(k + 1);
        assert(after =~= before.push(cs[k]));
        assert(claim_ids(after) =~= claim_ids(before).push(id@));
        assert(claim_gpios(after) =~= claim_gpios(before).push(gpio));
        assert(seen_ids@.map_values(|s: String| s@) =~= claim_ids(after));
        assert forall|g: u8| seen_gpios@.contains(g) <==> claim_gpios(after).contains(g) by {
            if g == gpio {
                assert(claim_gpios(after)[k] == g);
            }
            if claim_gpios(before).contains(g) {
                let j = choose|j: int| 0 <= j < claim_gpios(before).len() && claim_gpios(before)[j] == g;
                assert(claim_gpios(after)[j] == g);
            }
            if claim_gpios(after).contains(g) && g != gpio {
                let j = choose|j: int| 0 <= j < claim_gpios(after).len() && claim_gpios(after)[j] == g;
                assert(claim_gpios(before)[j] == g);
            }
        }
    }
    Ok(())
}

impl Config {
    /// Checks a decoded configuration: at least one zone, no id or GPIO line
    /// used twice across zones, meters and switches, and a coherent display
    /// section. Reports the first problem found.
    pub fn validate(&self) -> (r: Result<(), ConfigError>)
        ensures
            match r {
                Ok(()) => config_error(*self) is None,
                Err(e) => config_error(*self) == Some(e@),
            },
    {
        if self.zones.len() == 0 {
            return Err(ConfigError::NoZones);
        }
        let ghost cs = claims(*self);
        let ghost total = cs.len();
        let mut seen_ids: Vec<String> = Vec::new();
        let mut seen_gpios: HashSet<u8> = HashSet::new();
        let nz = self.zones.len();
        let nm = self.meters.len();
        let ns = self.switches.len();
        proof {
            assert(cs.take(0) =~= Seq::<Claim>::empty());
            assert(seen_ids@.map_values(|s: String| s@) =~= claim_ids(cs.take(0)));
        }
        for i in 0..nz
            invariant
                cs == claims(*self),
                nz == self.zones.len(),
                total == cs.len(),
                cs.len() == nz + nm + ns,
                nm == self.meters.len(),
                ns == self.switches.len(),
                first_claim_error(cs, i as nat) is None,
                seen_ids@.map_values(|s: String| s@) == claim_ids(cs.take(i as int)),
                forall|g: u8| seen_gpios@.contains(g) <==> claim_gpios(cs.take(i as int)).contains(g),
        {
            let z = &self.zones[i];
            proof {
                assert(cs[i as int] == (z.id@, z.gpio, EntityKind::Zone));
            }
            match check_claim(&mut seen_ids, &mut seen_gpios, &z.id, z.gpio, EntityKind::Zone, Ghost(cs), Ghost(i as int)) {
                Ok(()) => {},
                Err(e) => {
                    proof {
                        lemma_first_error_stays(cs, (i + 1) as nat, total);
                    }
                    return Err(e);
                },
            }
        }
        for i in 0..nm
            invariant
                cs == claims(*self),
                nz == self.zones.len(),
                nz > 0,
                total == cs.len(),
                cs.len() == nz + nm + ns,
                nm == self.meters.len(),
                ns == self.switches.len(),
                first_claim_error(cs, (nz + i) as nat) is None,
                seen_ids@.map_values(|s: String| s@) == claim_ids(cs.take(nz + i)),
                forall|g: u8| seen_gpios@.contains(g) <==> claim_gpios(cs.take(nz + i)).contains(g),
        {
            let m = &self.meters[i];
            proof {
                assert(cs[nz + i] == (m.id@, m.gpio, EntityKind::Meter));
            }
            match check_claim(&mut seen_ids, &mut seen_gpios, &m.id, m.gpio, EntityKind::Meter, Ghost(cs), Ghost(nz + i)) {
                Ok(()) => {},
                Err(e) => {
                    proof {
                        lemma_first_error_stays(cs, (nz + i + 1) as nat, total);
                    }
                    return Err(e);
                },
            }
        }
        for i in 0..ns
            invariant
                cs == claims(*self),
                nz == self.zones.len(),
                nz > 0,
                total == cs.len(),
                cs.len() == nz + nm + ns,
                nm == self.meters.len(),
                ns == self.switches.len(),
                first_claim_error(cs, (nz + nm + i) as nat) is None,
                seen_ids@.map_values(|s: String| s@) == claim_ids(cs.take(nz + nm + i)),
                forall|g: u8|
                    seen_gpios@.contains(g) <==> claim_gpios(cs.take(nz + nm + i)).contains(g),
        {
            let s = &self.switches[i];
            proof {
                assert(cs[nz + nm + i] == (s.id@, s.gpio, EntityKind::Switch));
            }
            match check_claim(&mut seen_ids, &mut seen_gpios, &s.id, s.gpio, EntityKind::Switch, Ghost(cs), Ghost(nz + nm + i)) {
                Ok(()) => {},
                Err(e) => {
                    proof {
                        lemma_first_error_stays(cs, (nz + nm + i + 1) as nat, total);
                    }
                    return Err(e);
                },
            }
        }
        proof {
            assert(cs.take(total as int) =~= cs);
        }
        match &self.display {
            None => Ok(()),
            Some(d) => {
                if d.refresh_secs < 1 {
                    return Err(ConfigError::RefreshTooShort);
                }
                if d.weather_refresh_secs < 10 {
                    return Err(ConfigError::WeatherRefreshTooShort);
                }
                if let Some(driver) = &d.driver {
                    if !(*driver == String::from_str("ssd1306") || *driver == String::from_str("ssd1309")) {
                        return Err(ConfigError::UnknownDriver { driver: driver.clone() });
                    }
                }
                if let Some(gpio) = d.reset_gpio {
                    if d.driver() != DisplayDriver::Ssd1309 {
                        return Err(ConfigError::ResetGpioNeedsSsd1309);
                    }
                    if !seen_gpios.insert(gpio) {
                        return Err(ConfigError::DuplicateResetGpio { gpio });
                    }
                }
                Ok(())
            },
        }
    }
}

} // verus!
