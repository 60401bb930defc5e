//! Pulse-input meters (e.g. Honeywell V200 water meter).
//!
//! A meter watches a GPIO line configured as input + pull-up; each debounced
//! falling edge is reported to Home Assistant with the configured increment.
//! The daemon keeps no count: Home Assistant's sensor is the source of
//! truth. The application watches the lines; this module holds what is
//! known of each meter.
use vstd::prelude::*;
use vstd::seq_lib::*;
use crate::config::{Config, MeterConfig};
use crate::text::{str_eq, text_le, text_le_exec, lemma_text_le_total, lemma_text_le_trans, lemma_text_le_refl};

verus! {

broadcast use {to_multiset_insert, to_multiset_build};

/// Debounce window of a pulse input when none is configured.
pub const DEFAULT_PULSE_DEBOUNCE_MS: u64 = 200;

#[derive(Debug, Clone)]
pub struct MeterDescriptor {
    pub id: String,
    pub name: String,
    pub gpio: u8,
    pub unit: String,
    pub device_class: Option<String>,
    pub increment_per_pulse: u64,
}

pub struct MeterDescriptorView {
    pub id: Seq<char>,
    pub name: Seq<char>,
    pub gpio: u8,
    pub unit: Seq<char>,
    pub device_class: Option<Seq<char>>,
    pub increment_per_pulse: u64,
}

pub open spec fn opt_text(o: Option<String>) -> Option<Seq<char>> {
    match o {
        Some(s) => Some(s@),
        None => None,
    }
}

impl View for MeterDescriptor {
    type V = MeterDescriptorView;

    open spec fn view(&self) -> MeterDescriptorView {
        MeterDescriptorView {
            id: self.id@,
            name: self.name@,
            gpio: self.gpio,
            unit: self.unit@,
            device_class: opt_text(self.device_class),
            increment_per_pulse: self.increment_per_pulse,
        }
    }
}

pub open spec fn views(s: Seq<MeterDescriptor>) -> Seq<MeterDescriptorView> {
    s.map_values(|d: MeterDescriptor| d@)
}

/// How a configured meter is described: unit "L" and one unit per pulse
/// unless configured otherwise.
pub open spec fn descriptor_of(c: MeterConfig) -> MeterDescriptorView {
    MeterDescriptorView {
        id: c.id@,
        name: c.name@,
        gpio: c.gpio,
        unit: match c.unit {
            Some(u) => u@,
            None => "L"@,
        },
        device_class: opt_text(c.device_class),
        increment_per_pulse: match c.increment_per_pulse {
            Some(n) => n,
            None => 1,
        },
    }
}

/// Descriptors in non-decreasing order of id.
pub open spec fn sorted_by_id(s: Seq<MeterDescriptorView>) -> bool {
    forall|i: int, j: int| 0 <= i < j < s.len() ==> text_le(#[trigger] s[i].id, #[trigger] s[j].id)
}

/// The first `n` descriptors of `input` rearranged as `out`: `perm[k]` is
/// the position in `input` of `out[k]`, each position taken once, and
/// descriptors with the same id keep their order from `input`.
pub open spec fn stable_prefix_rearrangement(
    input: Seq<MeterDescriptorView>,
    out: Seq<MeterDescriptorView>,
    perm: Seq<int>,
    n: int,
) -> bool {
    &&& perm.len() == out.len()
    &&& out.len() == n
    &&& forall|k: int| 0 <= k < out.len() ==> 0 <= #[trigger] perm[k] < n && out[k] == input[perm[k]]
    &&& forall|k: int, l: int| #![trigger perm[k], perm[l]] 0 <= k < l < out.len() ==> perm[k] != perm[l]
    &&& forall|k: int, l: int|
        #![trigger perm[k], perm[l]]
        0 <= k < l < out.len() && out[k].id == out[l].id ==> perm[k] < perm[l]
}

/// `out` holds exactly the descriptors of `input`, each once, with the
/// descriptors that share an id in their order in `input`.
pub open spec fn stable_rearrangement(
    input: Seq<MeterDescriptorView>,
    out: Seq<MeterDescriptorView>,
    perm: Seq<int>,
) -> bool {
    stable_prefix_rearrangement(input, out, perm, input.len() as int)
}

fn clone_opt(o: &Option<String>) -> (r: Option<String>)
    ensures
        opt_text(r) == opt_text(*o),
{
    match o {
        Some(s) => Some(s.clone()),
        None => None,
    }
}

fn copy_descriptor(d: &MeterDescriptor) -> (c: MeterDescriptor)
    ensures
        c@ == d@,
{
    MeterDescriptor {
        id: d.id.clone(),
        name: d.name.clone(),
        gpio: d.gpio,
        unit: d.unit.clone(),
        device_class: clone_opt(&d.device_class),
        increment_per_pulse: d.increment_per_pulse,
    }
}

/// The descriptor of a configured meter.
pub fn descriptor(c: &MeterConfig) -> (d: MeterDescriptor)
    ensures
        d@ == descriptor_of(*c),
{
    MeterDescriptor {
        id: c.id.clone(),
        name: c.name.clone(),
        gpio: c.gpio,
        unit: match &c.unit {
            Some(u) => u.clone(),
            None => String::from_str("L"),
        },
        device_class: clone_opt(&c.device_class),
        increment_per_pulse: match c.increment_per_pulse {
            Some(n) => n,
            None => 1,
        },
    }
}

/// Debounce window of a meter's pulse input, in milliseconds.
pub fn pulse_debounce_ms(c: &MeterConfig) -> (ms: u64)
    ensures
        ms == (match c.debounce_ms {
            Some(ms) => ms,
            None => DEFAULT_PULSE_DEBOUNCE_MS,
        }),
{
    match c.debounce_ms {
        Some(ms) => ms,
        None => DEFAULT_PULSE_DEBOUNCE_MS,
    }
}

/// The configured meters, in configuration order.
pub struct MetersInner {
    meters: Vec<MeterDescriptor>,
}

impl View for MetersInner {
    type V = Seq<MeterDescriptorView>;

    closed spec fn view(&self) -> Seq<MeterDescriptorView> {
        views(self.meters@)
    }
}

/// Describes the meters of a configuration.
pub fn create(config: &Config) -> (m: MetersInner)
    ensures
        m@ == config.meters@.map_values(|c: MeterConfig| descriptor_of(c)),
{
    let mut meters: Vec<MeterDescriptor> = Vec::new();
    let n = config.meters.len();
    for i in 0..n
        invariant
            n == config.meters@.len(),
            meters@.len() == i,
            forall|j: int| 0 <= j < i ==> (#[trigger] meters@[j])@ == descriptor_of(config.meters@[j]),
    {
        meters.push(descriptor(&config.meters[i]));
    }
    let m = MetersInner { meters };
    proof {
        assert(m@ =~= config.meters@.map_values(|c: MeterConfig| descriptor_of(c)));
    }
    m
}

/// The first meter whose id is `id`.
pub open spec fn meter_index_of(s: Seq<MeterDescriptorView>, id: Seq<char>, from: int) -> Option<int>
    decreases s.len() - from,
{
    if from < 0 || from >= s.len() {
        None
    } else if s[from].id == id {
        Some(from)
    } else {
        meter_index_of(s, id, from + 1)
    }
}

impl MetersInner {
    /// All descriptors, ordered by id; descriptors that share an id stay in
    /// configuration order (a stable sort).
    pub fn all_descriptors(&self) -> (out: Vec<MeterDescriptor>)
        ensures
            views(out@).to_multiset() == self@.to_multiset(),
            sorted_by_id(views(out@)),
            exists|perm: Seq<int>| stable_rearrangement(self@, views(out@), perm),
    {
        let ghost all = self@;
        let ghost mut perm: Seq<int> = Seq::empty();
        let n = self.meters.len();
        let mut out: Vec<MeterDescriptor> = Vec::new();
        proof {
            assert(views(out@) =~= all.take(0));
        }
        for i in 0..n
            invariant
                n == all.len(),
                all == self@,
                views(out@).to_multiset() == all.take(i as int).to_multiset(),
                sorted_by_id(views(out@)),
                stable_prefix_rearrangement(all, views(out@), perm, i as int),
        {
            let d = copy_descriptor(&self.meters[i]);
            let ghost before = views(out@);
            let mut p: usize = 0;
            while p < out.len() && text_le_exec(out[p].id.as_str(), d.id.as_str())
                invariant
                    before == views(out@),
                    p <= out@.len(),
                    forall|j: int| 0 <= j < p ==> text_le(#[trigger] before[j].id, d@.id),
                decreases out@.len() - p,
            {
                p = p + 1;
            }
            proof {
                if p < out@.len() {
                    lemma_text_le_total(before[p as int].id, d@.id);
                }
            }
            out.insert(p, d);
            proof {
                let after = views(out@);
                let old_perm = perm;
                let new_perm = old_perm.insert(p as int, i as int);
                assert(after =~= before.insert(p as int, d@));
                assert(d@ == all[i as int]);
                assert forall|k: int| 0 <= k < after.len() implies 0 <= #[trigger] new_perm[k] < i + 1 && after[k] == all[new_perm[k]] by {
                    if k < p {
                        assert(new_perm[k] == old_perm[k]);
                        assert(after[k] == before[k]);
                    } else if k > p {
                        assert(new_perm[k] == old_perm[k - 1]);
                        assert(after[k] == before[k - 1]);
                    }
                }
                assert forall|k: int, l: int| #![trigger new_perm[k], new_perm[l]] 0 <= k < l < after.len() implies new_perm[k] != new_perm[l] by {
                    if k != p && l != p {
                        let k0 = if k < p { k } else { k - 1 };
                        let l0 = if l < p { l } else { l - 1 };
                        assert(new_perm[k] == old_perm[k0]);
                        assert(new_perm[l] == old_perm[l0]);
                        assert(old_perm[k0] != old_perm[l0]);
                    } else if k == p {
                        assert(new_perm[l] == old_perm[l - 1]);
                        assert(old_perm[l - 1] < i);
                    } else {
                        assert(new_perm[k] == old_perm[k]);
                        assert(old_perm[k] < i);
                    }
                }
                assert forall|k: int, l: int|
                    #![trigger new_perm[k], new_perm[l]]
                    0 <= k < l < after.len() && after[k].id == after[l].id implies new_perm[k] < new_perm[l] by {
                    if k != p && l != p {
                        let k0 = if k < p { k } else { k - 1 };
                        let l0 = if l < p { l } else { l - 1 };
                        assert(new_perm[k] == old_perm[k0]);
                        assert(new_perm[l] == old_perm[l0]);
                        assert(after[k] == before[k0]);
                        assert(after[l] == before[l0]);
                        assert(old_perm[k0] < old_perm[l0]);
                    } else if l == p {
                        assert(new_perm[k] == old_perm[k]);
                        assert(old_perm[k] < i);
                    } else {
                        // k == p: no later descriptor shares the new one's id.
                        assert(after[l] == before[l - 1]);
                        assert(p < before.len());
                        assert(!text_le(before[p as int].id, d@.id));
                        if l - 1 == p {
                            lemma_text_le_refl(d@.id);
                        } else {
                            assert(text_le(before[p as int].id, before[l - 1].id));
                        }
                    }
                }
                perm = new_perm;
                assert(after =~= before.insert(p as int, d@));
                assert(all.take(i + 1) =~= all.take(i as int).push(all[i as int]));
                assert(self.meters@[i as int]@ == all[i as int]);
                assert(after.to_multiset() =~= before.to_multiset().insert(d@));
                assert(all.take(i + 1).to_multiset() =~= all.take(i as int).to_multiset().insert(all[i as int]));
                assert forall|a: int, b: int| 0 <= a < b < after.len() implies text_le(#[trigger] after[a].id, #[trigger] after[b].id) by {
                    if a < p && b == p {
                    } else if a < p && b > p {
                        assert(after[a] == before[a]);
                        assert(after[b] == before[b - 1]);
                    } else if a == p && b == p + 1 {
                        assert(after[b] == before[p as int]);
                    } else if a == p && b > p + 1 {
                        assert(after[b] == before[b - 1]);
                        lemma_text_le_trans(d@.id, before[p as int].id, before[b - 1].id);
                    } else if a > p {
                        assert(after[a] == before[a - 1]);
                        assert(after[b] == before[b - 1]);
                    }
                }
            }
        }
        proof {
            assert(all.take(n as int) =~= all);
            assert(stable_rearrangement(self@, views(out@), perm));
        }
        out
    }

    /// The descriptor of the meter `id`, if there is one.
    pub fn get(&self, id: &str) -> (r: Option<MeterDescriptor>)
        ensures
            match meter_index_of(self@, id@, 0) {
                Some(k) => r matches Some(d) && d@ == self@[k],
                None => r is None,
            },
    {
        let mut i: usize = 0;
        while i < self.meters.len()
            invariant
                self@.len() == self.meters@.len(),
                i <= self@.len(),
                meter_index_of(self@, id@, 0) == meter_index_of(self@, id@, i as int),
            decreases self@.len() - i,
        {
            proof {
                assert(self@[i as int] == self.meters@[i as int]@);
            }
            if str_eq(self.meters[i].id.as_str(), id) {
                return Some(copy_descriptor(&self.meters[i]));
            }
            i = i + 1;
        }
        None
    }
}

} // verus!
