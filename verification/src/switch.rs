//! Physical toggle switches wired to GPIO inputs.
//!
//! Each switch sits between its GPIO line and GND, with the internal pull-up
//! enabled: contact closed = line LOW = ON (flip with `inverted`). Edges are
//! debounced by the kernel, so an interrupt only fires on settled levels and
//! the edge direction is the new state. The application watches the lines
//! and reads their levels; this module decides what they mean.
use vstd::prelude::*;
use crate::config::{Config, SwitchConfig};
use crate::text::{push_str, str_eq};

verus! {

/// Mechanical toggle contact bounce is typically 5-20 ms; 50 ms gives ample
/// margin while staying far below any human-speed flip.
pub const DEFAULT_DEBOUNCE_MS: u64 = 50;

#[derive(Debug, Clone)]
pub struct SwitchStatus {
    pub id: String,
    pub name: String,
    pub gpio: u8,
    pub is_on: bool,
    pub inverted: bool,
    pub debounce_ms: u64,
}

pub struct SwitchStatusView {
    pub id: Seq<char>,
    pub name: Seq<char>,
    pub gpio: u8,
    pub is_on: bool,
    pub inverted: bool,
    pub debounce_ms: u64,
}

impl View for SwitchStatus {
    type V = SwitchStatusView;

    open spec fn view(&self) -> SwitchStatusView {
        SwitchStatusView {
            id: self.id@,
            name: self.name@,
            gpio: self.gpio,
            is_on: self.is_on,
            inverted: self.inverted,
            debounce_ms: self.debounce_ms,
        }
    }
}

struct Switch {
    id: String,
    name: String,
    gpio: u8,
    inverted: bool,
    debounce_ms: u64,
}

pub struct SwitchInfo {
    pub id: Seq<char>,
    pub name: Seq<char>,
    pub gpio: u8,
    pub inverted: bool,
    pub debounce_ms: u64,
}

impl Switch {
    spec fn info(&self) -> SwitchInfo {
        SwitchInfo {
            id: self.id@,
            name: self.name@,
            gpio: self.gpio,
            inverted: self.inverted,
            debounce_ms: self.debounce_ms,
        }
    }
}

/// The configured switches, in configuration order.
pub struct SwitchesInner {
    switches: Vec<Switch>,
}

impl View for SwitchesInner {
    type V = Seq<SwitchInfo>;

    closed spec fn view(&self) -> Seq<SwitchInfo> {
        self.switches@.map_values(|s: Switch| s.info())
    }
}

/// How a configured switch is described: not inverted and debounced for
/// 50 ms unless configured otherwise.
pub open spec fn switch_info_of(c: SwitchConfig) -> SwitchInfo {
    SwitchInfo {
        id: c.id@,
        name: c.name@,
        gpio: c.gpio,
        inverted: match c.inverted {
            Some(b) => b,
            None => false,
        },
        debounce_ms: match c.debounce_ms {
            Some(ms) => ms,
            None => DEFAULT_DEBOUNCE_MS,
        },
    }
}

/// A switch is on when its line is low, unless it is inverted.
pub open spec fn on_from_level(pin_is_low: bool, inverted: bool) -> bool {
    pin_is_low != inverted
}

pub open spec fn status_of(s: SwitchInfo, pin_is_low: bool) -> SwitchStatusView {
    SwitchStatusView {
        id: s.id,
        name: s.name,
        gpio: s.gpio,
        is_on: on_from_level(pin_is_low, s.inverted),
        inverted: s.inverted,
        debounce_ms: s.debounce_ms,
    }
}

/// The first switch whose id is `id`.
pub open spec fn switch_index_of(s: Seq<SwitchInfo>, id: Seq<char>, from: int) -> Option<int>
    decreases s.len() - from,
{
    if from < 0 || from >= s.len() {
        None
    } else if s[from].id == id {
        Some(from)
    } else {
        switch_index_of(s, id, from + 1)
    }
}

pub open spec fn switch_not_found(id: Seq<char>) -> Seq<char> {
    "Switch '"@ + id + "' not found"@
}

/// Reads the switch settings of a configuration.
pub fn create(config: &Config) -> (s: SwitchesInner)
    ensures
        s@ == config.switches@.map_values(|c: SwitchConfig| switch_info_of(c)),
{
    let mut switches: Vec<Switch> = Vec::new();
    let n = config.switches.len();
    for i in 0..n
        invariant
            n == config.switches@.len(),
            switches@.len() == i,
            forall|j: int| 0 <= j < i ==> (#[trigger] switches@[j]).info() == switch_info_of(config.switches@[j]),
    {
        let sc = &config.switches[i];
        let inverted = match sc.inverted {
            Some(b) => b,
            None => false,
        };
        let debounce_ms = match sc.debounce_ms {
            Some(ms) => ms,
            None => DEFAULT_DEBOUNCE_MS,
        };
        switches.push(Switch { id: sc.id.clone(), name: sc.name.clone(), gpio: sc.gpio, inverted, debounce_ms });
    }
    let s = SwitchesInner { switches };
    proof {
        assert(s@ =~= config.switches@.map_values(|c: SwitchConfig| switch_info_of(c)));
    }
    s
}

/// The kernel debounce window to request: none when it is configured as 0.
pub fn debounce_window(debounce_ms: u64) -> (w: Option<u64>)
    ensures
        w == (if debounce_ms > 0 { Some(debounce_ms) } else { None }),
{
    if debounce_ms > 0 {
        Some(debounce_ms)
    } else {
        None
    }
}

/// Whether a switch is on, given the level its line reads.
pub fn is_on(pin_is_low: bool, inverted: bool) -> (on: bool)
    ensures
        on == on_from_level(pin_is_low, inverted),
{
    pin_is_low != inverted
}

/// The state a settled edge reports: a falling edge pulls the line low,
/// which is ON for a plain switch.
pub fn edge_is_on(falling_edge: bool, inverted: bool) -> (on: bool)
    ensures
        on == (falling_edge != inverted),
{
    falling_edge != inverted
}

impl SwitchesInner {
    pub fn len(&self) -> (n: usize)
        ensures
            n == self@.len(),
    {
        self.switches.len()
    }

    /// GPIO line of switch `i`.
    pub fn gpio(&self, i: usize) -> (g: u8)
        requires
            i < self@.len(),
        ensures
            g == self@[i as int].gpio,
    {
        self.switches[i].gpio
    }

    /// Whether switch `i` is inverted.
    pub fn inverted(&self, i: usize) -> (b: bool)
        requires
            i < self@.len(),
        ensures
            b == self@[i as int].inverted,
    {
        self.switches[i].inverted
    }

    /// Debounce window of switch `i`, in milliseconds.
    pub fn debounce_ms(&self, i: usize) -> (ms: u64)
        requires
            i < self@.len(),
        ensures
            ms == self@[i as int].debounce_ms,
    {
        self.switches[i].debounce_ms
    }

    /// Id of switch `i`.
    pub fn id(&self, i: usize) -> (id: String)
        requires
            i < self@.len(),
        ensures
            id@ == self@[i as int].id,
    {
        self.switches[i].id.clone()
    }

    fn status(&self, i: usize, pin_is_low: bool) -> (s: SwitchStatus)
        requires
            i < self@.len(),
        ensures
            s@ == status_of(self@[i as int], pin_is_low),
    {
        let sw = &self.switches[i];
        SwitchStatus {
            id: sw.id.clone(),
            name: sw.name.clone(),
            gpio: sw.gpio,
            is_on: is_on(pin_is_low, sw.inverted),
            inverted: sw.inverted,
            debounce_ms: sw.debounce_ms,
        }
    }
}

/// The status of every switch, given the level each line reads now.
pub fn get_all(switches: &SwitchesInner, pin_is_low: &Vec<bool>) -> (v: Vec<SwitchStatus>)
    requires
        pin_is_low@.len() == switches@.len(),
    ensures
        v@.len() == switches@.len(),
        forall|i: int| 0 <= i < v@.len() ==> (#[trigger] v@[i])@ == status_of(switches@[i], pin_is_low@[i]),
        // Each status is named after the switch at its position.
        forall|i: int| 0 <= i < v@.len() ==> (#[trigger] v@[i]).id@ == switches@[i].id && v@[i].name@ == switches@[i].name
            && v@[i].gpio == switches@[i].gpio,
{
    let mut v: Vec<SwitchStatus> = Vec::new();
    let n = switches.len();
    for i in 0..n
        invariant
            n == switches@.len(),
            pin_is_low@.len() == switches@.len(),
            v@.len() == i,
            forall|j: int| 0 <= j < i ==> (#[trigger] v@[j])@ == status_of(switches@[j], pin_is_low@[j]),
    {
        v.push(switches.status(i, pin_is_low[i]));
    }
    v
}

/// The status of the switch `id`, given the level each line reads now.
pub fn get_switch(switches: &SwitchesInner, id: &str, pin_is_low: &Vec<bool>) -> (r: Result<SwitchStatus, String>)
    requires
        pin_is_low@.len() == switches@.len(),
    ensures
        match switch_index_of(switches@, id@, 0) {
            Some(k) => r matches Ok(s) && s@ == status_of(switches@[k], pin_is_low@[k]),
            None => r matches Err(m) && m@ == switch_not_found(id@),
        },
        // The status found carries the id it was asked by.
        r matches Ok(s) ==> s.id@ == id@,
{
    let mut i: usize = 0;
    while i < switches.len()
        invariant
            pin_is_low@.len() == switches@.len(),
            i <= switches@.len(),
            switch_index_of(switches@, id@, 0) == switch_index_of(switches@, id@, i as int),
        decreases switches@.len() - i,
    {
        let sid = switches.id(i);
        if str_eq(sid.as_str(), id) {
            let st = switches.status(i, pin_is_low[i]);
            proof {
                lemma_switch_index_of(switches@, id@, 0);
            }
            return Ok(st);
        }
        i = i + 1;
    }
    let mut m = String::new();
    push_str(&mut m, "Switch '");
    push_str(&mut m, id);
    push_str(&mut m, "' not found");
    proof {
        assert(m@ =~= switch_not_found(id@));
    }
    Err(m)
}

/// What `switch_index_of` finds: a switch with that id, the first one
/// from `from` on.
proof fn lemma_switch_index_of(s: Seq<SwitchInfo>, id: Seq<char>, from: int)
    requires
        0 <= from,
    ensures
        match switch_index_of(s, id, from) {
            Some(k) => from <= k < s.len() && s[k].id == id,
            None => forall|j: int| from <= j < s.len() ==> (#[trigger] s[j]).id != id,
        },
    decreases s.len() - from,
{
    if from < s.len() && s[from].id != id {
        lemma_switch_index_of(s, id, from + 1);
    }
}

/// A switch's status reports the id and name it was configured with, and
/// its gpio line, whatever level the line reads.
pub proof fn status_names_the_configured_switch(c: SwitchConfig, pin_is_low: bool)
    ensures
        status_of(switch_info_of(c), pin_is_low).id == c.id@,
        status_of(switch_info_of(c), pin_is_low).name == c.name@,
        status_of(switch_info_of(c), pin_is_low).gpio == c.gpio,
{
}

/// Looking a switch up by id gives the status of a switch with that id.
pub proof fn lookup_reports_the_requested_id(s: Seq<SwitchInfo>, id: Seq<char>, pin_is_low: Seq<bool>)
    ensures
        switch_index_of(s, id, 0) matches Some(k) ==> status_of(s[k], pin_is_low[k]).id == id,
{
    lemma_switch_index_of(s, id, 0);
}

/// The state an edge reports is the state read from the line it settles
/// to: after a falling edge the line is low, after a rising edge high.
pub proof fn edge_agrees_with_level(falling_edge: bool, inverted: bool)
    ensures
        (falling_edge != inverted) == on_from_level(falling_edge, inverted),
{
}

} // verus!
