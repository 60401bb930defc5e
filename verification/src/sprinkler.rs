//! The valve controller.
//!
//! The controller keeps, for every zone, whether its valve is open, since
//! when, and when it was last opened. Each request (open, close, close all,
//! read) is a step from the current state and a clock reading to the next
//! state, a reply, and the list of effects the application carries out in
//! order: drive a relay pin, cancel or arm the zone's safety timer, persist
//! the last-opened timestamp, push the new status to Home Assistant. When
//! a safety timer runs out the application asks for `close_zone`.
use vstd::prelude::*;
use vstd::string::*;
use crate::clock::{
    Clock, UtcInstant, MIN_UTC_SECS, rfc3339, rfc3339_text, trimmed, lemma_trimmed_unchanged,
    valid_instant, valid_clock, instant_before, instant_minus, instant_is_valid,
    lemma_instant_before_nothing,
};
use crate::config::{Config, ZoneConfig};
use crate::text::{push_str, str_eq};

verus! {

// ---------------------------------------------------------------------------
// Public types
// ---------------------------------------------------------------------------

/// What the daemon reports about one zone.
#[derive(Debug, Clone)]
pub struct ZoneStatus {
    pub id: String,
    pub name: String,
    pub gpio: u8,
    pub is_open: bool,
    pub opened_at: Option<String>,
    pub open_duration_secs: Option<u64>,
    pub max_duration_secs: u64,
    pub kind: Option<String>,
    /// Last time this zone was opened (persists after close).
    pub last_opened_at: Option<String>,
}

pub struct ZoneStatusView {
    pub id: Seq<char>,
    pub name: Seq<char>,
    pub gpio: u8,
    pub is_open: bool,
    pub opened_at: Option<Seq<char>>,
    pub open_duration_secs: Option<u64>,
    pub max_duration_secs: u64,
    pub kind: Option<Seq<char>>,
    pub last_opened_at: Option<Seq<char>>,
}

pub open spec fn opt_text(o: Option<String>) -> Option<Seq<char>> {
    match o {
        Some(s) => Some(s@),
        None => None,
    }
}

impl View for ZoneStatus {
    type V = ZoneStatusView;

    open spec fn view(&self) -> ZoneStatusView {
        ZoneStatusView {
            id: self.id@,
            name: self.name@,
            gpio: self.gpio,
            is_open: self.is_open,
            opened_at: opt_text(self.opened_at),
            open_duration_secs: self.open_duration_secs,
            max_duration_secs: self.max_duration_secs,
            kind: opt_text(self.kind),
            last_opened_at: opt_text(self.last_opened_at),
        }
    }
}

/// One effect of a controller step, for the application to carry out.
#[derive(Debug)]
pub enum ZoneAction {
    /// Drive the zone's relay pin high (`true`) or low (`false`).
    SetPin { zone: usize, high: bool },
    /// Abort the zone's pending safety timer, if it has one.
    CancelTimer { zone: usize },
    /// The zone's safety timer has run out: drop its handle without
    /// aborting it (the timer's own task is carrying out this step).
    TimerDone { zone: usize },
    /// Write `timestamp` to the zone's state file.
    SaveLastOpened { zone: usize, timestamp: String },
    /// Arm the zone's safety timer: close it after `secs` seconds.
    StartTimer { zone: usize, secs: u64 },
    /// Fire the zone-update event on Home Assistant's event bus.
    PushState { status: ZoneStatus },
}

pub enum ZoneActionView {
    SetPin { zone: int, high: bool },
    CancelTimer { zone: int },
    TimerDone { zone: int },
    SaveLastOpened { zone: int, timestamp: Seq<char> },
    StartTimer { zone: int, secs: u64 },
    PushState { status: ZoneStatusView },
}

impl View for ZoneAction {
    type V = ZoneActionView;

    open spec fn view(&self) -> ZoneActionView {
        match self {
            ZoneAction::SetPin { zone, high } => ZoneActionView::SetPin {
                zone: *zone as int,
                high: *high,
            },
            ZoneAction::CancelTimer { zone } => ZoneActionView::CancelTimer { zone: *zone as int },
            ZoneAction::TimerDone { zone } => ZoneActionView::TimerDone { zone: *zone as int },
            ZoneAction::SaveLastOpened { zone, timestamp } => ZoneActionView::SaveLastOpened {
                zone: *zone as int,
                timestamp: timestamp@,
            },
            ZoneAction::StartTimer { zone, secs } => ZoneActionView::StartTimer {
                zone: *zone as int,
                secs: *secs,
            },
            ZoneAction::PushState { status } => ZoneActionView::PushState { status: status@ },
        }
    }
}

pub open spec fn actions_view(a: Seq<ZoneAction>) -> Seq<ZoneActionView> {
    a.map_values(|x: ZoneAction| x@)
}

pub open spec fn statuses_view(s: Seq<ZoneStatus>) -> Seq<ZoneStatusView> {
    s.map_values(|x: ZoneStatus| x@)
}

// ---------------------------------------------------------------------------
// Controller state
// ---------------------------------------------------------------------------

/// The fixed description of a zone.
struct ZoneInfo {
    id: String,
    name: String,
    gpio_num: u8,
    kind: Option<String>,
    max_duration_secs: u64,
}

pub struct ZoneInfoView {
    pub id: Seq<char>,
    pub name: Seq<char>,
    pub gpio: u8,
    pub kind: Option<Seq<char>>,
    pub max_duration_secs: u64,
}

/// What changes about a zone while the daemon runs.
#[derive(Debug, Clone, Copy)]
pub struct ZoneRun {
    pub is_open: bool,
    /// Monotonic clock reading when the valve was opened.
    pub opened_at: Option<u64>,
    /// Wall-clock instant of the last opening.
    pub last_opened_at: Option<UtcInstant>,
}

/// The controller: every configured zone, and the two switches of its
/// behaviour (one valve at a time; relay boards driven active-low).
pub struct SprinklerInner {
    zones: Vec<ZoneInfo>,
    runs: Vec<ZoneRun>,
    mutex_enabled: bool,
    invert_logic: bool,
}

pub struct SprinklerView {
    pub zones: Seq<ZoneInfoView>,
    pub runs: Seq<ZoneRun>,
    pub mutex_enabled: bool,
    pub invert_logic: bool,
}

impl ZoneInfo {
    spec fn view(&self) -> ZoneInfoView {
        ZoneInfoView {
            id: self.id@,
            name: self.name@,
            gpio: self.gpio_num,
            kind: opt_text(self.kind),
            max_duration_secs: self.max_duration_secs,
        }
    }
}

impl View for SprinklerInner {
    type V = SprinklerView;

    closed spec fn view(&self) -> SprinklerView {
        view_of(self.zones@, self.runs@, self.mutex_enabled, self.invert_logic)
    }
}

spec fn view_of(zones: Seq<ZoneInfo>, runs: Seq<ZoneRun>, mutex_enabled: bool, invert_logic: bool) -> SprinklerView {
    SprinklerView {
        zones: zones.map_values(|z: ZoneInfo| z.view()),
        runs: runs,
        mutex_enabled: mutex_enabled,
        invert_logic: invert_logic,
    }
}

/// The controller's invariant: one run per zone, a valve has an opening
/// time exactly while it is open, every last opening is an instant chrono
/// represents, and with the mutex on at most one valve is open.
pub open spec fn wf(v: SprinklerView) -> bool {
    &&& v.zones.len() == v.runs.len()
    &&& forall|i: int| 0 <= i < v.runs.len() ==> (#[trigger] v.runs[i]).is_open == (
    v.runs[i].opened_at is Some)
    &&& forall|i: int| 0 <= i < v.runs.len() ==> last_opened_valid(#[trigger] v.runs[i])
    &&& v.mutex_enabled ==> at_most_one_open(v.runs)
}

pub open spec fn last_opened_valid(r: ZoneRun) -> bool {
    match r.last_opened_at {
        Some(w) => valid_instant(w),
        None => true,
    }
}

/// Whether the opening time of a run, seen from `now`, is an instant chrono
/// represents (otherwise chrono's `DateTime - TimeDelta` panics).
pub open spec fn opening_fits(r: ZoneRun, now: Clock) -> bool {
    match r.opened_at {
        Some(t) => instant_before(now.wall, elapsed_since(t, now)).secs >= MIN_UTC_SECS,
        None => true,
    }
}

/// The clock readings a status can be reported at: a wall clock as
/// `Utc::now` gives, and every opening time representable from it.
pub open spec fn clock_fits(v: SprinklerView, now: Clock) -> bool {
    &&& valid_clock(now)
    &&& forall|i: int| 0 <= i < v.runs.len() ==> opening_fits(#[trigger] v.runs[i], now)
}

pub open spec fn at_most_one_open(runs: Seq<ZoneRun>) -> bool {
    forall|i: int, j: int|
        0 <= i < runs.len() && 0 <= j < runs.len() && (#[trigger] runs[i]).is_open && (
        #[trigger] runs[j]).is_open ==> i == j
}

impl SprinklerInner {
    #[verifier::type_invariant]
    spec fn inv(self) -> bool {
        wf(self@)
    }

}

// ---------------------------------------------------------------------------
// Specification of the steps
// ---------------------------------------------------------------------------

/// Pin level that opens a valve: high, or low on an inverted relay board.
pub open spec fn open_level(invert: bool) -> bool {
    !invert
}

/// Pin level that closes a valve.
pub open spec fn closed_level(invert: bool) -> bool {
    invert
}

pub open spec fn closed_run(r: ZoneRun) -> ZoneRun {
    ZoneRun { is_open: false, opened_at: None, last_opened_at: r.last_opened_at }
}

pub open spec fn opened_run(now: Clock) -> ZoneRun {
    ZoneRun {
        is_open: true,
        opened_at: Some(now.monotonic_nanos),
        last_opened_at: Some(now.wall),
    }
}

/// Time since a monotonic reading, zero if the reading lies in the future.
pub open spec fn elapsed_since(t: u64, now: Clock) -> nat {
    if now.monotonic_nanos >= t {
        (now.monotonic_nanos - t) as nat
    } else {
        0
    }
}

/// The status reported for a zone.
pub open spec fn status_view(z: ZoneInfoView, r: ZoneRun, now: Clock) -> ZoneStatusView {
    ZoneStatusView {
        id: z.id,
        name: z.name,
        gpio: z.gpio,
        is_open: r.is_open,
        opened_at: match r.opened_at {
            Some(t) => {
                let w = instant_before(now.wall, elapsed_since(t, now));
                Some(rfc3339_text(w.secs, w.nanos))
            },
            None => None,
        },
        open_duration_secs: match r.opened_at {
            Some(t) => Some((elapsed_since(t, now) / 1_000_000_000) as u64),
            None => None,
        },
        max_duration_secs: z.max_duration_secs,
        kind: z.kind,
        last_opened_at: match r.last_opened_at {
            Some(w) => Some(rfc3339_text(w.secs, w.nanos)),
            None => None,
        },
    }
}

/// The first zone, from position `from` on, whose id is `id`.
pub open spec fn first_zone_with(zones: Seq<ZoneInfoView>, id: Seq<char>, from: int) -> Option<int>
    decreases zones.len() - from,
{
    if from < 0 || from >= zones.len() {
        None
    } else if zones[from].id == id {
        Some(from)
    } else {
        first_zone_with(zones, id, from + 1)
    }
}

/// The first zone whose id is `id`.
pub open spec fn zone_index_of(zones: Seq<ZoneInfoView>, id: Seq<char>) -> Option<int> {
    first_zone_with(zones, id, 0)
}

/// What `first_zone_with` finds: the first matching zone from `from` on, or
/// none when no zone from there matches.
pub proof fn lemma_first_zone_with(zones: Seq<ZoneInfoView>, id: Seq<char>, from: int)
    requires
        0 <= from,
    ensures
        match first_zone_with(zones, id, from) {
            Some(k) => from <= k < zones.len() && zones[k].id == id && forall|j: int|
                from <= j < k ==> (#[trigger] zones[j]).id != id,
            None => forall|j: int| from <= j < zones.len() ==> (#[trigger] zones[j]).id != id,
        },
    decreases zones.len() - from,
{
    if from < zones.len() && zones[from].id != id {
        lemma_first_zone_with(zones, id, from + 1);
    }
}

pub open spec fn not_found_message(id: Seq<char>) -> Seq<char> {
    "Zone '"@ + id + "' not found"@
}

/// The effects of closing the open zone `i`, in order.
pub open spec fn close_effects(v: SprinklerView, i: int) -> Seq<ZoneActionView> {
    seq![
        ZoneActionView::SetPin { zone: i, high: closed_level(v.invert_logic) },
        ZoneActionView::CancelTimer { zone: i },
    ]
}

/// Effects of the mutex on the first `n` zones when zone `target` opens:
/// every other open zone is closed and its new status pushed.
pub open spec fn mutex_effects(v: SprinklerView, target: int, now: Clock, n: nat) -> Seq<
    ZoneActionView,
>
    decreases n,
{
    if n == 0 {
        Seq::empty()
    } else {
        let i = n - 1;
        let before = mutex_effects(v, target, now, (n - 1) as nat);
        if v.runs[i].is_open && i != target {
            before + close_effects(v, i) + seq![
                ZoneActionView::PushState {
                    status: status_view(v.zones[i], closed_run(v.runs[i]), now),
                },
            ]
        } else {
            before
        }
    }
}

/// Runs after opening zone `k`: unchanged when it is already open;
/// otherwise `k` is open since `now` and, with the mutex, all others closed.
pub open spec fn runs_after_open(v: SprinklerView, k: int, now: Clock) -> Seq<ZoneRun> {
    if v.runs[k].is_open {
        v.runs
    } else {
        Seq::new(
            v.runs.len(),
            |i: int|
                if i == k {
                    opened_run(now)
                } else if v.mutex_enabled {
                    closed_run(v.runs[i])
                } else {
                    v.runs[i]
                },
        )
    }
}

/// Effects of opening zone `k`, in order.
pub open spec fn open_effects(v: SprinklerView, k: int, now: Clock) -> Seq<ZoneActionView> {
    if v.runs[k].is_open {
        Seq::empty()
    } else {
        (if v.mutex_enabled {
            mutex_effects(v, k, now, v.runs.len())
        } else {
            Seq::empty()
        }) + seq![
            ZoneActionView::SetPin { zone: k, high: open_level(v.invert_logic) },
            ZoneActionView::SaveLastOpened { zone: k, timestamp: rfc3339_text(now.wall.secs, now.wall.nanos) },
            ZoneActionView::StartTimer { zone: k, secs: v.zones[k].max_duration_secs },
            ZoneActionView::PushState { status: status_view(v.zones[k], opened_run(now), now) },
        ]
    }
}

/// Runs after closing zone `k`.
pub open spec fn runs_after_close(v: SprinklerView, k: int) -> Seq<ZoneRun> {
    if v.runs[k].is_open {
        v.runs.update(k, closed_run(v.runs[k]))
    } else {
        v.runs
    }
}

/// Effects of closing zone `k`, in order: the relay and timer only when
/// the valve was open, then the status push in any case.
pub open spec fn close_zone_effects(v: SprinklerView, k: int, now: Clock) -> Seq<ZoneActionView> {
    (if v.runs[k].is_open {
        close_effects(v, k)
    } else {
        Seq::empty()
    }) + seq![
        ZoneActionView::PushState {
            status: status_view(v.zones[k], runs_after_close(v, k)[k], now),
        },
    ]
}

/// Effects of closing zone `k` because its safety timer ran out: as for a
/// request to close, but the timer is released rather than cancelled, so
/// that the status push still goes out.
pub open spec fn expire_zone_effects(v: SprinklerView, k: int, now: Clock) -> Seq<ZoneActionView> {
    (if v.runs[k].is_open {
        seq![
            ZoneActionView::SetPin { zone: k, high: closed_level(v.invert_logic) },
            ZoneActionView::TimerDone { zone: k },
        ]
    } else {
        Seq::empty()
    }) + seq![
        ZoneActionView::PushState {
            status: status_view(v.zones[k], runs_after_close(v, k)[k], now),
        },
    ]
}

/// The relay and timer effects of closing the open zones among the first `n`.
pub open spec fn close_all_effects(v: SprinklerView, n: nat) -> Seq<ZoneActionView>
    decreases n,
{
    if n == 0 {
        Seq::empty()
    } else {
        let i = n - 1;
        close_all_effects(v, (n - 1) as nat) + if v.runs[i].is_open {
            close_effects(v, i)
        } else {
            Seq::empty()
        }
    }
}

pub open spec fn all_closed_runs(v: SprinklerView) -> Seq<ZoneRun> {
    Seq::new(v.runs.len(), |i: int| closed_run(v.runs[i]))
}

/// The statuses of all zones.
pub open spec fn statuses_of(zones: Seq<ZoneInfoView>, runs: Seq<ZoneRun>, now: Clock) -> Seq<
    ZoneStatusView,
> {
    Seq::new(zones.len(), |i: int| status_view(zones[i], runs[i], now))
}

pub open spec fn pushes_of(statuses: Seq<ZoneStatusView>) -> Seq<ZoneActionView> {
    statuses.map_values(|s: ZoneStatusView| ZoneActionView::PushState { status: s })
}

/// How a configured zone is described to the controller.
pub open spec fn zone_info_of(z: ZoneConfig, default_secs: u64) -> ZoneInfoView {
    ZoneInfoView {
        id: z.id@,
        name: z.name@,
        gpio: z.gpio,
        kind: opt_text(z.kind),
        max_duration_secs: match z.max_duration_secs {
            Some(s) => s,
            None => default_secs,
        },
    }
}

/// The step ends by pushing the status it returns, which shows the valve
/// closed: no opening time, no duration.
pub open spec fn closed_status_pushed(status: ZoneStatus, actions: Seq<ZoneAction>) -> bool {
    &&& actions.len() > 0
    &&& actions.last()@ == (ZoneActionView::PushState { status: status@ })
    &&& !status.is_open
    &&& status.opened_at is None
    &&& status.open_duration_secs is None
}

/// The step ends by pushing the status it returns, which shows the valve
/// open since `now`: opened and last opened at `now`'s wall-clock time,
/// for no time yet.
pub open spec fn opened_status_pushed(status: ZoneStatus, actions: Seq<ZoneAction>, now: Clock) -> bool {
    &&& actions.len() > 0
    &&& actions.last()@ == (ZoneActionView::PushState { status: status@ })
    &&& status.is_open
    &&& status@.opened_at == Some(rfc3339_text(now.wall.secs, now.wall.nanos))
    &&& status.open_duration_secs == Some(0u64)
    &&& status@.last_opened_at == Some(rfc3339_text(now.wall.secs, now.wall.nanos))
}

// ---------------------------------------------------------------------------
// Steps
// ---------------------------------------------------------------------------

fn clone_opt(o: &Option<String>) -> (r: Option<String>)
    ensures
        opt_text(r) == opt_text(*o),
{
    match o {
        Some(s) => Some(s.clone()),
        None => None,
    }
}

fn timestamp_text(w: UtcInstant) -> (s: String)
    requires
        valid_instant(w),
    ensures
        s@ == rfc3339_text(w.secs, w.nanos),
        trimmed(s@) == s@,
{
    let s = rfc3339(w);
    proof {
        lemma_trimmed_unchanged(s@);
    }
    s
}

/// Level to drive a relay pin to so that the valve opens.
pub fn open_pin_level(invert_logic: bool) -> (high: bool)
    ensures
        high == open_level(invert_logic),
{
    !invert_logic
}

/// Level to drive a relay pin to so that the valve closes.
pub fn closed_pin_level(invert_logic: bool) -> (high: bool)
    ensures
        high == closed_level(invert_logic),
{
    invert_logic
}

fn not_found(zone_id: &str) -> (m: String)
    ensures
        m@ == not_found_message(zone_id@),
{
    let mut m = String::new();
    push_str(&mut m, "Zone '");
    push_str(&mut m, zone_id);
    push_str(&mut m, "' not found");
    proof {
        assert(m@ =~= not_found_message(zone_id@));
    }
    m
}

/// Closes zone `idx` if its valve is open, appending the relay and timer
/// effects.
fn close_run(runs: &mut Vec<ZoneRun>, idx: usize, invert_logic: bool, expired: bool, actions: &mut Vec<ZoneAction>)
    requires
        idx < old(runs)@.len(),
        old(runs)@[idx as int].is_open == (old(runs)@[idx as int].opened_at is Some),
    ensures
        final(runs)@ == (if old(runs)@[idx as int].is_open {
            old(runs)@.update(idx as int, closed_run(old(runs)@[idx as int]))
        } else {
            old(runs)@
        }),
        actions_view(final(actions)@) == actions_view(old(actions)@) + (if old(runs)@[idx as int].is_open {
            seq![
                ZoneActionView::SetPin { zone: idx as int, high: closed_level(invert_logic) },
                if expired {
                    ZoneActionView::TimerDone { zone: idx as int }
                } else {
                    ZoneActionView::CancelTimer { zone: idx as int }
                },
            ]
        } else {
            Seq::empty()
        }),
{
    let r = runs[idx];
    if !r.is_open {
        proof {
            assert(actions_view(actions@) =~= actions_view(old(actions)@) + Seq::empty());
        }
        return;
    }
    actions.push(ZoneAction::SetPin { zone: idx, high: closed_pin_level(invert_logic) });
    if expired {
        actions.push(ZoneAction::TimerDone { zone: idx });
    } else {
        actions.push(ZoneAction::CancelTimer { zone: idx });
    }
    runs.set(idx, ZoneRun { is_open: false, opened_at: None, last_opened_at: r.last_opened_at });
    proof {
        assert(actions_view(actions@) =~= actions_view(old(actions)@) + seq![
            ZoneActionView::SetPin { zone: idx as int, high: closed_level(invert_logic) },
            if expired {
                ZoneActionView::TimerDone { zone: idx as int }
            } else {
                ZoneActionView::CancelTimer { zone: idx as int }
            },
        ]);
    }
}

proof fn lemma_close_keeps_wf(v: SprinklerView, k: int)
    requires
        wf(v),
        0 <= k < v.runs.len(),
    ensures
        wf(SprinklerView { runs: runs_after_close(v, k), ..v }),
{
    let runs = runs_after_close(v, k);
    assert forall|i: int| 0 <= i < runs.len() implies (#[trigger] runs[i]).is_open == (runs[i].opened_at is Some) by {
        assert(v.runs[i].is_open == (v.runs[i].opened_at is Some));
    }
    assert forall|i: int| 0 <= i < runs.len() implies last_opened_valid(#[trigger] runs[i]) by {
        assert(last_opened_valid(v.runs[i]));
    }
    if v.mutex_enabled {
        assert forall|i: int, j: int|
            0 <= i < runs.len() && 0 <= j < runs.len() && (#[trigger] runs[i]).is_open && (#[trigger] runs[j]).is_open implies i == j by {
            assert(v.runs[i].is_open && v.runs[j].is_open);
        }
    }
}

fn status_of(z: &ZoneInfo, r: ZoneRun, now: Clock) -> (s: ZoneStatus)
    requires
        valid_clock(now),
        opening_fits(r, now),
        last_opened_valid(r),
    ensures
        s@ == status_view(z.view(), r, now),
{
    let (opened_at, open_duration_secs) = match r.opened_at {
        Some(t) => {
            let e = now.monotonic_nanos.saturating_sub(t);
            let w = instant_minus(now.wall, e);
            (Some(rfc3339(w)), Some(e / 1_000_000_000))
        },
        None => (None, None),
    };
    let last_opened_at = match r.last_opened_at {
        Some(w) => Some(rfc3339(w)),
        None => None,
    };
    ZoneStatus {
        id: z.id.clone(),
        name: z.name.clone(),
        gpio: z.gpio_num,
        is_open: r.is_open,
        opened_at,
        open_duration_secs,
        max_duration_secs: z.max_duration_secs,
        kind: clone_opt(&z.kind),
        last_opened_at,
    }
}

impl SprinklerInner {
    fn empty() -> (e: SprinklerInner)
        ensures
            e@.zones == Seq::<ZoneInfoView>::empty(),
            e@.runs == Seq::<ZoneRun>::empty(),
            !e@.mutex_enabled,
            !e@.invert_logic,
    {
        let e = SprinklerInner { zones: Vec::new(), runs: Vec::new(), mutex_enabled: false, invert_logic: false };
        proof {
            assert(e@.zones =~= Seq::<ZoneInfoView>::empty());
            assert(e@.runs =~= Seq::<ZoneRun>::empty());
        }
        e
    }

    /// Number of configured zones.
    pub fn len(&self) -> (n: usize)
        ensures
            n == self@.zones.len(),
            n == self@.runs.len(),
    {
        proof {
            use_type_invariant(self);
        }
        self.zones.len()
    }

    /// Position of the first zone with the given id.
    pub fn zone_index(&self, id: &str) -> (r: Option<usize>)
        ensures
            match r {
                Some(i) => zone_index_of(self@.zones, id@) == Some(i as int) && i < self@.zones.len(),
                None => zone_index_of(self@.zones, id@) is None,
            },
    {
        let ghost zs = self@.zones;
        let mut i: usize = 0;
        while i < self.zones.len()
            invariant
                zs == self@.zones,
                zs.len() == self.zones@.len(),
                i <= zs.len(),
                first_zone_with(zs, id@, 0) == first_zone_with(zs, id@, i as int),
            decreases zs.len() - i,
        {
            proof {
                assert(zs[i as int].id == self.zones@[i as int].id@);
            }
            if str_eq(self.zones[i].id.as_str(), id) {
                return Some(i);
            }
            i = i + 1;
        }
        None
    }

    /// The status of zone `idx` at the time `now`.
    pub fn zone_status(&self, idx: usize, now: Clock) -> (s: ZoneStatus)
        requires
            idx < self@.zones.len(),
            clock_fits(self@, now),
        ensures
            s@ == status_view(self@.zones[idx as int], self@.runs[idx as int], now),
    {
        proof {
            use_type_invariant(self);
        }
        proof {
            assert(opening_fits(self@.runs[idx as int], now));
            assert(last_opened_valid(self@.runs[idx as int]));
        }
        status_of(&self.zones[idx], self.runs[idx], now)
    }

    /// Whether statuses can be reported at the clock reading `now` (see
    /// `clock_fits`).
    pub fn clock_fits(&self, now: Clock) -> (b: bool)
        ensures
            b == clock_fits(self@, now),
    {
        proof {
            use_type_invariant(self);
        }
        if !(instant_is_valid(now.wall) && now.wall.nanos < 1_000_000_000) {
            return false;
        }
        let n = self.runs.len();
        for i in 0..n
            invariant
                n == self@.runs.len(),
                valid_clock(now),
                forall|j: int| 0 <= j < i ==> opening_fits(#[trigger] self@.runs[j], now),
        {
            if let Some(t) = self.runs[i].opened_at {
                let e = now.monotonic_nanos.saturating_sub(t);
                let w = instant_minus(now.wall, e);
                if w.secs < MIN_UTC_SECS {
                    return false;
                }
            }
        }
        true
    }

    /// The statuses of all zones at the time `now`, in configuration order.
    pub fn all_statuses(&self, now: Clock) -> (v: Vec<ZoneStatus>)
        requires
            clock_fits(self@, now),
        ensures
            statuses_view(v@) == statuses_of(self@.zones, self@.runs, now),
    {
        proof {
            use_type_invariant(self);
        }
        let mut v: Vec<ZoneStatus> = Vec::new();
        for i in 0..self.zones.len()
            invariant
                wf(self@),
                clock_fits(self@, now),
                self@.zones.len() == self.zones@.len(),
                v@.len() == i,
                forall|j: int| 0 <= j < i ==> (#[trigger] v@[j])@ == status_view(self@.zones[j], self@.runs[j], now),
        {
            let s = self.zone_status(i, now);
            v.push(s);
        }
        proof {
            assert(statuses_view(v@) =~= statuses_of(self@.zones, self@.runs, now));
        }
        v
    }
}

/// Builds the controller for a configuration, with every valve closed.
/// `last_opened` holds, zone by zone, the instant restored from its state
/// file. The effects drive every relay pin to its closed level.
pub fn create(config: &Config, last_opened: &Vec<Option<UtcInstant>>) -> (r: (SprinklerInner, Vec<ZoneAction>))
    requires
        last_opened@.len() == config.zones@.len(),
        forall|i: int| 0 <= i < last_opened@.len() ==> match #[trigger] last_opened@[i] {
            Some(w) => valid_instant(w),
            None => true,
        },
    ensures
        wf(r.0@),
        r.0@.zones == Seq::new(
            config.zones@.len(),
            |i: int| zone_info_of(config.zones@[i], config.sprinkler.max_duration_secs),
        ),
        r.0@.runs == Seq::new(
            config.zones@.len(),
            |i: int| ZoneRun { is_open: false, opened_at: None, last_opened_at: last_opened@[i] },
        ),
        r.0@.mutex_enabled == config.sprinkler.mutex,
        r.0@.invert_logic == config.sprinkler.invert_logic,
        // A zone's safety limit is its own, else the sprinkler-wide one.
        forall|i: int| 0 <= i < config.zones@.len() ==> (#[trigger] r.0@.zones[i]).max_duration_secs == (
        match config.zones@[i].max_duration_secs {
            Some(secs) => secs,
            None => config.sprinkler.max_duration_secs,
        }),
        actions_view(r.1@) == Seq::new(
            config.zones@.len(),
            |i: int| ZoneActionView::SetPin { zone: i, high: closed_level(config.sprinkler.invert_logic) },
        ),
{
    let invert = config.sprinkler.invert_logic;
    let n = config.zones.len();
    let mut zones: Vec<ZoneInfo> = Vec::new();
    let mut runs: Vec<ZoneRun> = Vec::new();
    let mut actions: Vec<ZoneAction> = Vec::new();
    for i in 0..n
        invariant
            n == config.zones@.len(),
            n == last_opened@.len(),
            invert == config.sprinkler.invert_logic,
            zones@.len() == i,
            runs@.len() == i,
            actions@.len() == i,
            forall|j: int| 0 <= j < i ==> (#[trigger] zones@[j]).view() == zone_info_of(config.zones@[j], config.sprinkler.max_duration_secs),
            forall|j: int| 0 <= j < i ==> #[trigger] runs@[j] == (ZoneRun { is_open: false, opened_at: None, last_opened_at: last_opened@[j] }),
            forall|j: int| 0 <= j < i ==> (#[trigger] actions@[j])@ == (ZoneActionView::SetPin { zone: j, high: closed_level(invert) }),
    {
        let zc = &config.zones[i];
        actions.push(ZoneAction::SetPin { zone: i, high: closed_pin_level(invert) });
        zones.push(ZoneInfo {
            id: zc.id.clone(),
            name: zc.name.clone(),
            gpio_num: zc.gpio,
            kind: clone_opt(&zc.kind),
            max_duration_secs: zc.max_duration(config.sprinkler.max_duration_secs),
        });
        runs.push(ZoneRun { is_open: false, opened_at: None, last_opened_at: last_opened[i] });
    }
    let inner = SprinklerInner {
        zones,
        runs,
        mutex_enabled: config.sprinkler.mutex,
        invert_logic: invert,
    };
    proof {
        assert(inner@.zones =~= Seq::new(
            config.zones@.len(),
            |i: int| zone_info_of(config.zones@[i], config.sprinkler.max_duration_secs),
        ));
        assert(inner@.runs =~= Seq::new(
            config.zones@.len(),
            |i: int| ZoneRun { is_open: false, opened_at: None, last_opened_at: last_opened@[i] },
        ));
        assert(actions_view(actions@) =~= Seq::new(
            config.zones@.len(),
            |i: int| ZoneActionView::SetPin { zone: i, high: closed_level(config.sprinkler.invert_logic) },
        ));
    }
    (inner, actions)
}

/// Closes the zone `zone_id`; `expired` tells a safety timer running out
/// from a request.
fn close_step(inner: &mut SprinklerInner, zone_id: &str, now: Clock, expired: bool) -> (r: Result<(ZoneStatus, Vec<ZoneAction>), String>)
    requires
        clock_fits(old(inner)@, now),
    ensures
        wf(final(inner)@),
        final(inner)@.zones == old(inner)@.zones,
        final(inner)@.mutex_enabled == old(inner)@.mutex_enabled,
        final(inner)@.invert_logic == old(inner)@.invert_logic,
        match zone_index_of(old(inner)@.zones, zone_id@) {
            None => {
                &&& r matches Err(m) && m@ == not_found_message(zone_id@)
                &&& final(inner)@.runs == old(inner)@.runs
            },
            Some(k) => {
                &&& r matches Ok((status, actions)) && {
                    &&& status@ == status_view(old(inner)@.zones[k], runs_after_close(old(inner)@, k)[k], now)
                    &&& actions_view(actions@) == (if expired {
                        expire_zone_effects(old(inner)@, k, now)
                    } else {
                        close_zone_effects(old(inner)@, k, now)
                    })
                    &&& closed_status_pushed(status, actions@)
                }
                &&& final(inner)@.runs == runs_after_close(old(inner)@, k)
            },
        },
{
    proof {
        use_type_invariant(&*inner);
    }
    let idx = match inner.zone_index(zone_id) {
        None => return Err(not_found(zone_id)),
        Some(i) => i,
    };
    let ghost v0 = inner@;
    let mut tmp = SprinklerInner::empty();
    std::mem::swap(inner, &mut tmp);
    proof {
        use_type_invariant(&tmp);
    }
    let SprinklerInner { zones, mut runs, mutex_enabled, invert_logic } = tmp;
    proof {
        assert(v0 == view_of(zones@, runs@, mutex_enabled, invert_logic));
        assert(runs@[idx as int].is_open == (runs@[idx as int].opened_at is Some));
    }
    let mut actions: Vec<ZoneAction> = Vec::new();
    close_run(&mut runs, idx, invert_logic, expired, &mut actions);
    proof {
        assert(runs@ =~= runs_after_close(v0, idx as int));
        lemma_close_keeps_wf(v0, idx as int);
    }
    *inner = SprinklerInner { zones, runs, mutex_enabled, invert_logic };
    let pushed = inner.zone_status(idx, now);
    actions.push(ZoneAction::PushState { status: pushed });
    let status = inner.zone_status(idx, now);
    proof {
        if expired {
            assert(actions_view(actions@) =~= expire_zone_effects(v0, idx as int, now));
        } else {
            assert(actions_view(actions@) =~= close_zone_effects(v0, idx as int, now));
        }
        closing_pushes_the_closed_status(v0, idx as int, now);
        assert(actions@.last()@ == actions_view(actions@).last());
    }
    Ok((status, actions))
}

/// Closes the zone `zone_id` on request.
/// Closing a closed valve changes nothing but still reports its status.
pub fn close_zone(inner: &mut SprinklerInner, zone_id: &str, now: Clock) -> (r: Result<(ZoneStatus, Vec<ZoneAction>), String>)
    requires
        clock_fits(old(inner)@, now),
    ensures
        wf(final(inner)@),
        final(inner)@.zones == old(inner)@.zones,
        final(inner)@.mutex_enabled == old(inner)@.mutex_enabled,
        final(inner)@.invert_logic == old(inner)@.invert_logic,
        match zone_index_of(old(inner)@.zones, zone_id@) {
            None => {
                &&& r matches Err(m) && m@ == not_found_message(zone_id@)
                &&& final(inner)@.runs == old(inner)@.runs
            },
            Some(k) => {
                &&& r matches Ok((status, actions)) && {
                    &&& status@ == status_view(old(inner)@.zones[k], runs_after_close(old(inner)@, k)[k], now)
                    &&& actions_view(actions@) == close_zone_effects(old(inner)@, k, now)
                    &&& closed_status_pushed(status, actions@)
                }
                &&& final(inner)@.runs == runs_after_close(old(inner)@, k)
            },
        },
{
    close_step(inner, zone_id, now, false)
}

/// Closes the zone `zone_id` when its safety timer runs out: as
/// `close_zone`, except that the timer, whose task is the one asking, is
/// released rather than aborted, so that the status push goes out.
pub fn expire_zone(inner: &mut SprinklerInner, zone_id: &str, now: Clock) -> (r: Result<(ZoneStatus, Vec<ZoneAction>), String>)
    requires
        clock_fits(old(inner)@, now),
    ensures
        wf(final(inner)@),
        final(inner)@.zones == old(inner)@.zones,
        final(inner)@.mutex_enabled == old(inner)@.mutex_enabled,
        final(inner)@.invert_logic == old(inner)@.invert_logic,
        match zone_index_of(old(inner)@.zones, zone_id@) {
            None => {
                &&& r matches Err(m) && m@ == not_found_message(zone_id@)
                &&& final(inner)@.runs == old(inner)@.runs
            },
            Some(k) => {
                &&& r matches Ok((status, actions)) && {
                    &&& status@ == status_view(old(inner)@.zones[k], runs_after_close(old(inner)@, k)[k], now)
                    &&& actions_view(actions@) == expire_zone_effects(old(inner)@, k, now)
                    &&& closed_status_pushed(status, actions@)
                }
                &&& final(inner)@.runs == runs_after_close(old(inner)@, k)
            },
        },
{
    close_step(inner, zone_id, now, true)
}

/// With the mutex on, closes every open zone other than `idx`, pushing the
/// status of each one closed.
fn close_others(
    zones: &Vec<ZoneInfo>,
    runs: &mut Vec<ZoneRun>,
    idx: usize,
    invert_logic: bool,
    now: Clock,
    actions: &mut Vec<ZoneAction>,
    Ghost(v0): Ghost<SprinklerView>,
)
    requires
        wf(v0),
        valid_clock(now),
        v0.zones == zones@.map_values(|z: ZoneInfo| z.view()),
        v0.runs == old(runs)@,
        v0.invert_logic == invert_logic,
        idx < old(runs)@.len(),
        !v0.runs[idx as int].is_open,
        old(actions)@.len() == 0,
    ensures
        final(runs)@.len() == v0.runs.len(),
        forall|j: int| 0 <= j < v0.runs.len() ==> #[trigger] final(runs)@[j] == (if j != idx && v0.runs[j].is_open {
            closed_run(v0.runs[j])
        } else {
            v0.runs[j]
        }),
        actions_view(final(actions)@) == mutex_effects(v0, idx as int, now, v0.runs.len()),
{
    let n = runs.len();
    proof {
        assert(actions_view(actions@) =~= mutex_effects(v0, idx as int, now, 0));
    }
    for i in 0..n
        invariant
            wf(v0),
            valid_clock(now),
            v0.zones == zones@.map_values(|z: ZoneInfo| z.view()),
            v0.invert_logic == invert_logic,
            n == v0.runs.len(),
            idx < n,
            runs@.len() == n,
            !v0.runs[idx as int].is_open,
            forall|j: int| 0 <= j < n ==> #[trigger] runs@[j] == (if j < i && j != idx && v0.runs[j].is_open {
                closed_run(v0.runs[j])
            } else {
                v0.runs[j]
            }),
            actions_view(actions@) == mutex_effects(v0, idx as int, now, i as nat),
    {
        proof {
            assert(v0.runs[i as int].is_open == (v0.runs[i as int].opened_at is Some));
        }
        let ghost before = actions_view(actions@);
        if i != idx && runs[i].is_open {
            close_run(runs, i, invert_logic, false, actions);
            proof {
                assert(last_opened_valid(v0.runs[i as int]));
                assert(runs@[i as int] == closed_run(v0.runs[i as int]));
                assert(last_opened_valid(runs@[i as int]));
                assert(opening_fits(runs@[i as int], now));
            }
            let st = status_of(&zones[i], runs[i], now);
            actions.push(ZoneAction::PushState { status: st });
            proof {
                assert(zones@[i as int].view() == v0.zones[i as int]);
                assert(actions_view(actions@) =~= before + close_effects(v0, i as int) + seq![
                    ZoneActionView::PushState {
                        status: status_view(v0.zones[i as int], closed_run(v0.runs[i as int]), now),
                    },
                ]);
            }
        }
    }
}

proof fn lemma_open_runs(v0: SprinklerView, idx: int, now: Clock, runs: Seq<ZoneRun>)
    requires
        wf(v0),
        valid_clock(now),
        0 <= idx < v0.runs.len(),
        !v0.runs[idx].is_open,
        runs.len() == v0.runs.len(),
        runs[idx] == opened_run(now),
        forall|j: int| 0 <= j < runs.len() && j != idx ==> #[trigger] runs[j] == (if v0.mutex_enabled && v0.runs[j].is_open {
            closed_run(v0.runs[j])
        } else {
            v0.runs[j]
        }),
    ensures
        runs == runs_after_open(v0, idx, now),
        wf(SprinklerView { runs: runs, ..v0 }),
{
    assert forall|j: int| 0 <= j < runs.len() implies #[trigger] runs[j] == runs_after_open(v0, idx, now)[j] by {
        assert(v0.runs[j].is_open == (v0.runs[j].opened_at is Some));
    }
    assert(runs =~= runs_after_open(v0, idx, now));
    assert forall|j: int| 0 <= j < runs.len() implies (#[trigger] runs[j]).is_open == (runs[j].opened_at is Some) by {
        assert(v0.runs[j].is_open == (v0.runs[j].opened_at is Some));
    }
    assert forall|j: int| 0 <= j < runs.len() implies last_opened_valid(#[trigger] runs[j]) by {
        assert(last_opened_valid(v0.runs[j]));
    }
    if v0.mutex_enabled {
        assert forall|a: int, b: int|
            0 <= a < runs.len() && 0 <= b < runs.len() && (#[trigger] runs[a]).is_open && (#[trigger] runs[b]).is_open implies a == b by {
            if a != idx {
                assert(!runs[a].is_open);
            }
            if b != idx {
                assert(!runs[b].is_open);
            }
        }
    }
}

/// Appends the effects of opening zone `idx` itself.
fn push_open_effects(z: &ZoneInfo, idx: usize, invert_logic: bool, now: Clock, actions: &mut Vec<ZoneAction>)
    requires
        valid_clock(now),
    ensures
        trimmed(rfc3339_text(now.wall.secs, now.wall.nanos)) == rfc3339_text(now.wall.secs, now.wall.nanos),
        actions_view(final(actions)@) == actions_view(old(actions)@) + seq![
            ZoneActionView::SetPin { zone: idx as int, high: open_level(invert_logic) },
            ZoneActionView::SaveLastOpened { zone: idx as int, timestamp: rfc3339_text(now.wall.secs, now.wall.nanos) },
            ZoneActionView::StartTimer { zone: idx as int, secs: z.view().max_duration_secs },
            ZoneActionView::PushState { status: status_view(z.view(), opened_run(now), now) },
        ],
{
    let ghost a0 = actions_view(actions@);
    let run = ZoneRun { is_open: true, opened_at: Some(now.monotonic_nanos), last_opened_at: Some(now.wall) };
    proof {
        lemma_instant_before_nothing(now.wall);
    }
    let st = status_of(z, run, now);
    let ts = timestamp_text(now.wall);
    let e1 = ZoneAction::SetPin { zone: idx, high: open_pin_level(invert_logic) };
    let e2 = ZoneAction::SaveLastOpened { zone: idx, timestamp: ts };
    let e3 = ZoneAction::StartTimer { zone: idx, secs: z.max_duration_secs };
    let e4 = ZoneAction::PushState { status: st };
    let ghost tail = seq![e1@, e2@, e3@, e4@];
    actions.push(e1);
    actions.push(e2);
    actions.push(e3);
    actions.push(e4);
    proof {
        assert(actions_view(actions@) =~= a0 + tail);
    }
}

/// Opens the closed zone `idx`: the mutex step, then the opening itself.
fn open_runs(
    zones: &Vec<ZoneInfo>,
    runs: &mut Vec<ZoneRun>,
    idx: usize,
    mutex_enabled: bool,
    invert_logic: bool,
    now: Clock,
    Ghost(v0): Ghost<SprinklerView>,
) -> (actions: Vec<ZoneAction>)
    requires
        wf(v0),
        valid_clock(now),
        v0 == view_of(zones@, old(runs)@, mutex_enabled, invert_logic),
        idx < old(runs)@.len(),
        !v0.runs[idx as int].is_open,
    ensures
        final(runs)@ == runs_after_open(v0, idx as int, now),
        wf(view_of(zones@, final(runs)@, mutex_enabled, invert_logic)),
        actions_view(actions@) == open_effects(v0, idx as int, now),
        trimmed(rfc3339_text(now.wall.secs, now.wall.nanos)) == rfc3339_text(now.wall.secs, now.wall.nanos),
{
    let mut actions: Vec<ZoneAction> = Vec::new();
    if mutex_enabled {
        close_others(zones, runs, idx, invert_logic, now, &mut actions, Ghost(v0));
    }
    let ghost closed_part = actions_view(actions@);
    proof {
        if !mutex_enabled {
            assert(closed_part =~= Seq::<ZoneActionView>::empty());
        }
    }
    runs.set(idx, ZoneRun { is_open: true, opened_at: Some(now.monotonic_nanos), last_opened_at: Some(now.wall) });
    proof {
        lemma_open_runs(v0, idx as int, now, runs@);
        assert(view_of(zones@, runs@, mutex_enabled, invert_logic) == (SprinklerView { runs: runs@, ..v0 }));
        assert(zones@[idx as int].view() == v0.zones[idx as int]);
    }
    push_open_effects(&zones[idx], idx, invert_logic, now, &mut actions);
    proof {
        assert(closed_part == (if v0.mutex_enabled {
            mutex_effects(v0, idx as int, now, v0.runs.len())
        } else {
            Seq::empty()
        }));
    }
    actions
}

/// Opens the zone `zone_id`. Opening an open valve changes nothing and has
/// no effect. Otherwise, with the mutex on, every other open valve is
/// closed first (its status pushed); then the valve opens, the opening
/// time is persisted, the safety timer is armed and the status pushed.
pub fn open_zone(inner: &mut SprinklerInner, zone_id: &str, now: Clock) -> (r: Result<(ZoneStatus, Vec<ZoneAction>), String>)
    requires
        clock_fits(old(inner)@, now),
    ensures
        wf(final(inner)@),
        final(inner)@.zones == old(inner)@.zones,
        final(inner)@.mutex_enabled == old(inner)@.mutex_enabled,
        final(inner)@.invert_logic == old(inner)@.invert_logic,
        match zone_index_of(old(inner)@.zones, zone_id@) {
            None => {
                &&& r matches Err(m) && m@ == not_found_message(zone_id@)
                &&& final(inner)@.runs == old(inner)@.runs
            },
            Some(k) => {
                &&& r matches Ok((status, actions)) && {
                    &&& status@ == status_view(old(inner)@.zones[k], runs_after_open(old(inner)@, k, now)[k], now)
                    &&& actions_view(actions@) == open_effects(old(inner)@, k, now)
                    &&& !old(inner)@.runs[k].is_open ==> opened_status_pushed(status, actions@, now)
                }
                &&& final(inner)@.runs == runs_after_open(old(inner)@, k, now)
                // The timestamp persisted on opening is its own trim, so the
                // state file reads back as the same instant.
                &&& !old(inner)@.runs[k].is_open ==> trimmed(rfc3339_text(now.wall.secs, now.wall.nanos)) == rfc3339_text(now.wall.secs, now.wall.nanos)
            },
        },
{
    proof {
        use_type_invariant(&*inner);
    }
    let idx = match inner.zone_index(zone_id) {
        None => return Err(not_found(zone_id)),
        Some(i) => i,
    };
    if inner.runs[idx].is_open {
        let status = inner.zone_status(idx, now);
        let actions: Vec<ZoneAction> = Vec::new();
        proof {
            assert(actions_view(actions@) =~= open_effects(old(inner)@, idx as int, now));
        }
        return Ok((status, actions));
    }
    let ghost v0 = inner@;
    let mut tmp = SprinklerInner::empty();
    std::mem::swap(inner, &mut tmp);
    proof {
        use_type_invariant(&tmp);
    }
    let SprinklerInner { zones, mut runs, mutex_enabled, invert_logic } = tmp;
    proof {
        assert(v0 == view_of(zones@, runs@, mutex_enabled, invert_logic));
    }
    let actions = open_runs(&zones, &mut runs, idx, mutex_enabled, invert_logic, now, Ghost(v0));
    *inner = SprinklerInner { zones, runs, mutex_enabled, invert_logic };
    let status = inner.zone_status(idx, now);
    proof {
        opening_pushes_the_opened_status(v0, idx as int, now);
        assert(actions@.last()@ == actions_view(actions@).last());
    }
    Ok((status, actions))
}

proof fn lemma_all_closed_wf(v: SprinklerView)
    requires
        wf(v),
    ensures
        wf(SprinklerView { runs: all_closed_runs(v), ..v }),
{
}

/// Closes every valve (on request, and when the daemon shuts down), then
/// pushes the status of every zone.
pub fn close_all(inner: &mut SprinklerInner, now: Clock) -> (r: (Vec<ZoneStatus>, Vec<ZoneAction>))
    requires
        clock_fits(old(inner)@, now),
    ensures
        wf(final(inner)@),
        final(inner)@.zones == old(inner)@.zones,
        final(inner)@.mutex_enabled == old(inner)@.mutex_enabled,
        final(inner)@.invert_logic == old(inner)@.invert_logic,
        final(inner)@.runs == all_closed_runs(old(inner)@),
        statuses_view(r.0@) == statuses_of(old(inner)@.zones, all_closed_runs(old(inner)@), now),
        actions_view(r.1@) == close_all_effects(old(inner)@, old(inner)@.runs.len())
            + pushes_of(statuses_of(old(inner)@.zones, all_closed_runs(old(inner)@), now)),
{
    proof {
        use_type_invariant(&*inner);
    }
    let ghost v0 = inner@;
    let mut tmp = SprinklerInner::empty();
    std::mem::swap(inner, &mut tmp);
    proof {
        use_type_invariant(&tmp);
    }
    let SprinklerInner { zones, mut runs, mutex_enabled, invert_logic } = tmp;
    proof {
        assert(v0 == view_of(zones@, runs@, mutex_enabled, invert_logic));
        assert(actions_view(Seq::<ZoneAction>::empty()) =~= close_all_effects(v0, 0));
    }
    let n = runs.len();
    let mut actions: Vec<ZoneAction> = Vec::new();
    for i in 0..n
        invariant
            wf(v0),
            v0.runs.len() == n,
            v0.invert_logic == invert_logic,
            runs@.len() == n,
            forall|j: int| 0 <= j < n ==> #[trigger] runs@[j] == (if j < i { closed_run(v0.runs[j]) } else { v0.runs[j] }),
            actions_view(actions@) == close_all_effects(v0, i as nat),
    {
        proof {
            assert(v0.runs[i as int].is_open == (v0.runs[i as int].opened_at is Some));
        }
        let ghost before = actions_view(actions@);
        close_run(&mut runs, i, invert_logic, false, &mut actions);
        proof {
            assert(actions_view(actions@) == before + (if v0.runs[i as int].is_open {
                close_effects(v0, i as int)
            } else {
                Seq::empty()
            }));
        }
    }
    proof {
        assert forall|j: int| 0 <= j < n implies #[trigger] runs@[j] == all_closed_runs(v0)[j] by {
            assert(v0.runs[j].is_open == (v0.runs[j].opened_at is Some));
        }
        assert(runs@ =~= all_closed_runs(v0));
        lemma_all_closed_wf(v0);
        assert(view_of(zones@, runs@, mutex_enabled, invert_logic) == (SprinklerView { runs: runs@, ..v0 }));
    }
    *inner = SprinklerInner { zones, runs, mutex_enabled, invert_logic };
    let ghost closing = actions_view(actions@);
    let ghost sv = statuses_of(v0.zones, all_closed_runs(v0), now);
    proof {
        assert(inner@.zones == v0.zones && inner@.runs == all_closed_runs(v0));
        assert(closing + pushes_of(sv.take(0)) =~= closing);
        assert forall|j: int| 0 <= j < inner@.runs.len() implies opening_fits(#[trigger] inner@.runs[j], now) by {
            assert(inner@.runs[j] == closed_run(v0.runs[j]));
        }
    }
    for i in 0..n
        invariant
            wf(inner@),
            inner@.zones == v0.zones,
            inner@.runs == all_closed_runs(v0),
            clock_fits(inner@, now),
            n == v0.runs.len(),
            n == v0.zones.len(),
            sv == statuses_of(v0.zones, all_closed_runs(v0), now),
            actions_view(actions@) == closing + pushes_of(sv.take(i as int)),
    {
        let ghost old_actions = actions@;
        let s = inner.zone_status(i, now);
        actions.push(ZoneAction::PushState { status: s });
        proof {
            assert(sv.take(i + 1) =~= sv.take(i as int).push(sv[i as int]));
            assert(pushes_of(sv.take(i + 1)) =~= pushes_of(sv.take(i as int)).push(
                ZoneActionView::PushState { status: sv[i as int] },
            ));
            assert(actions_view(actions@) =~= actions_view(old_actions) .push(
                ZoneActionView::PushState { status: sv[i as int] },
            ));
            assert(actions_view(actions@) =~= closing + pushes_of(sv.take(i + 1)));
        }
    }
    proof {
        assert(sv.take(n as int) =~= sv);
    }
    let statuses = inner.all_statuses(now);
    (statuses, actions)
}

/// The statuses of all zones.
pub fn get_all(inner: &SprinklerInner, now: Clock) -> (v: Vec<ZoneStatus>)
    requires
        clock_fits(inner@, now),
    ensures
        statuses_view(v@) == statuses_of(inner@.zones, inner@.runs, now),
{
    inner.all_statuses(now)
}

/// The status of the zone `zone_id`.
pub fn get_zone(inner: &SprinklerInner, zone_id: &str, now: Clock) -> (r: Result<ZoneStatus, String>)
    requires
        clock_fits(inner@, now),
    ensures
        match zone_index_of(inner@.zones, zone_id@) {
            None => r matches Err(m) && m@ == not_found_message(zone_id@),
            Some(k) => r matches Ok(s) && s@ == status_view(inner@.zones[k], inner@.runs[k], now),
        },
        // The status found is the one of the zone asked for.
        r matches Ok(s) ==> s.id@ == zone_id@,
{
    match inner.zone_index(zone_id) {
        None => Err(not_found(zone_id)),
        Some(i) => {
            let s = inner.zone_status(i, now);
            proof {
                zone_lookup_reports_the_requested_id(inner@, zone_id@, now);
            }
            Ok(s)
        },
    }
}

// ---------------------------------------------------------------------------
// Laws
// ---------------------------------------------------------------------------

/// A relay pin is never driven to the same level to open and to close.
pub proof fn open_and_closed_levels_differ(invert_logic: bool)
    ensures
        open_level(invert_logic) != closed_level(invert_logic),
{
}

/// With the mutex on, after opening zone `k` exactly that zone is open,
/// whatever was open before.
pub proof fn mutex_leaves_only_the_opened_zone(v: SprinklerView, k: int, now: Clock)
    requires
        wf(v),
        v.mutex_enabled,
        0 <= k < v.runs.len(),
    ensures
        runs_after_open(v, k, now)[k].is_open,
        forall|i: int| 0 <= i < v.runs.len() && i != k ==> !(#[trigger] runs_after_open(v, k, now)[i]).is_open,
{
    if v.runs[k].is_open {
        assert forall|i: int| 0 <= i < v.runs.len() && i != k implies !(#[trigger] runs_after_open(v, k, now)[i]).is_open by {
            if v.runs[i].is_open {
                assert(v.runs[k].is_open && v.runs[i].is_open);
            }
        }
    }
}

/// Without the mutex, opening zone `k` leaves every other zone as it was.
pub proof fn without_mutex_other_zones_untouched(v: SprinklerView, k: int, now: Clock)
    requires
        wf(v),
        !v.mutex_enabled,
        0 <= k < v.runs.len(),
    ensures
        forall|i: int| 0 <= i < v.runs.len() && i != k ==> #[trigger] runs_after_open(v, k, now)[i] == v.runs[i],
{
}

/// Opening a zone twice is the same as opening it once: the second request
/// changes nothing and has no effect.
pub proof fn open_is_idempotent(v: SprinklerView, k: int, now: Clock, later: Clock)
    requires
        wf(v),
        0 <= k < v.runs.len(),
    ensures
        ({
            let v1 = SprinklerView { runs: runs_after_open(v, k, now), ..v };
            &&& runs_after_open(v1, k, later) == v1.runs
            &&& open_effects(v1, k, later) == Seq::<ZoneActionView>::empty()
        }),
{
}

/// Closing a zone twice is the same as closing it once: the second request
/// changes nothing and only reports the status.
pub proof fn close_is_idempotent(v: SprinklerView, k: int, now: Clock)
    requires
        wf(v),
        0 <= k < v.runs.len(),
    ensures
        ({
            let v1 = SprinklerView { runs: runs_after_close(v, k), ..v };
            &&& runs_after_close(v1, k) == v1.runs
            &&& close_zone_effects(v1, k, now) == seq![
                ZoneActionView::PushState { status: status_view(v.zones[k], v1.runs[k], now) },
            ]
        }),
{
    let v1 = SprinklerView { runs: runs_after_close(v, k), ..v };
    assert(close_zone_effects(v1, k, now) =~= seq![
        ZoneActionView::PushState { status: status_view(v.zones[k], v1.runs[k], now) },
    ]);
}

/// Opening a closed zone and then closing it leaves its valve closed, with
/// the opening time remembered as its last opening.
pub proof fn open_then_close_remembers_the_opening(v: SprinklerView, k: int, now: Clock)
    requires
        wf(v),
        0 <= k < v.runs.len(),
        !v.runs[k].is_open,
    ensures
        ({
            let v1 = SprinklerView { runs: runs_after_open(v, k, now), ..v };
            runs_after_close(v1, k)[k] == ZoneRun {
                is_open: false,
                opened_at: None,
                last_opened_at: Some(now.wall),
            }
        }),
{
}

/// Opening a closed zone persists exactly the instant it records as its
/// last opening.
pub proof fn opening_persists_its_timestamp(v: SprinklerView, k: int, now: Clock)
    requires
        wf(v),
        0 <= k < v.runs.len(),
        !v.runs[k].is_open,
    ensures
        runs_after_open(v, k, now)[k].last_opened_at == Some(now.wall),
        open_effects(v, k, now).contains(
            ZoneActionView::SaveLastOpened { zone: k, timestamp: rfc3339_text(now.wall.secs, now.wall.nanos) },
        ),
{
    let e = open_effects(v, k, now);
    let pre = if v.mutex_enabled {
        mutex_effects(v, k, now, v.runs.len())
    } else {
        Seq::empty()
    };
    assert(e[pre.len() as int + 1] == ZoneActionView::SaveLastOpened { zone: k, timestamp: rfc3339_text(now.wall.secs, now.wall.nanos) });
}

/// When a safety timer runs out the timer is released, never aborted (its
/// own task is the one closing the zone), and the step ends by pushing the
/// zone's new status, so Home Assistant hears of every automatic close.
pub proof fn expiry_always_pushes(v: SprinklerView, k: int, now: Clock)
    requires
        wf(v),
        0 <= k < v.runs.len(),
    ensures
        expire_zone_effects(v, k, now).last() == (ZoneActionView::PushState {
            status: status_view(v.zones[k], runs_after_close(v, k)[k], now),
        }),
        forall|i: int| 0 <= i < expire_zone_effects(v, k, now).len() ==> !(#[trigger] expire_zone_effects(v, k, now)[i] is CancelTimer),
{
}

/// After closing all zones no valve is open, and every zone keeps the time
/// of its last opening.
pub proof fn close_all_closes_every_valve(v: SprinklerView)
    requires
        wf(v),
    ensures
        forall|i: int| 0 <= i < v.runs.len() ==> !(#[trigger] all_closed_runs(v)[i]).is_open,
        forall|i: int| 0 <= i < v.runs.len() ==> (#[trigger] all_closed_runs(v)[i]).last_opened_at == v.runs[i].last_opened_at,
{
}

/// A status says a valve is open exactly when it is, and gives an opening
/// time and duration exactly then.
pub proof fn status_reflects_the_valve(z: ZoneInfoView, r: ZoneRun, now: Clock)
    requires
        r.is_open == (r.opened_at is Some),
    ensures
        status_view(z, r, now).is_open == r.is_open,
        status_view(z, r, now).opened_at is Some <==> r.is_open,
        status_view(z, r, now).open_duration_secs is Some <==> r.is_open,
{
}

/// Opening a closed zone ends by telling Home Assistant the valve is open:
/// the last effect pushes the zone's new status (the one the step
/// returns), open since `now`'s wall-clock time, for no time yet, last
/// opened then too, with the zone's safety limit; just before it the
/// safety timer is armed for that limit.
pub proof fn opening_pushes_the_opened_status(v: SprinklerView, k: int, now: Clock)
    requires
        wf(v),
        valid_clock(now),
        0 <= k < v.runs.len(),
        !v.runs[k].is_open,
    ensures
        open_effects(v, k, now).len() >= 2,
        open_effects(v, k, now).last() == (ZoneActionView::PushState {
            status: status_view(v.zones[k], runs_after_open(v, k, now)[k], now),
        }),
        open_effects(v, k, now)[open_effects(v, k, now).len() - 2] == (ZoneActionView::StartTimer {
            zone: k,
            secs: v.zones[k].max_duration_secs,
        }),
        runs_after_open(v, k, now)[k].is_open,
        status_view(v.zones[k], runs_after_open(v, k, now)[k], now).is_open,
        status_view(v.zones[k], runs_after_open(v, k, now)[k], now).opened_at == Some(rfc3339_text(now.wall.secs, now.wall.nanos)),
        status_view(v.zones[k], runs_after_open(v, k, now)[k], now).open_duration_secs == Some(0u64),
        status_view(v.zones[k], runs_after_open(v, k, now)[k], now).last_opened_at == Some(rfc3339_text(now.wall.secs, now.wall.nanos)),
        status_view(v.zones[k], runs_after_open(v, k, now)[k], now).max_duration_secs == v.zones[k].max_duration_secs,
{
    lemma_instant_before_nothing(now.wall);
}

/// Closing a zone, on request or because its timer ran out, ends by
/// telling Home Assistant the valve is closed: the last effect pushes the
/// zone's new status (the one the step returns), with no opening time and
/// no duration, and the last opening still remembered.
pub proof fn closing_pushes_the_closed_status(v: SprinklerView, k: int, now: Clock)
    requires
        wf(v),
        0 <= k < v.runs.len(),
    ensures
        close_zone_effects(v, k, now).last() == (ZoneActionView::PushState {
            status: status_view(v.zones[k], runs_after_close(v, k)[k], now),
        }),
        expire_zone_effects(v, k, now).last() == (ZoneActionView::PushState {
            status: status_view(v.zones[k], runs_after_close(v, k)[k], now),
        }),
        !runs_after_close(v, k)[k].is_open,
        !status_view(v.zones[k], runs_after_close(v, k)[k], now).is_open,
        status_view(v.zones[k], runs_after_close(v, k)[k], now).opened_at is None,
        status_view(v.zones[k], runs_after_close(v, k)[k], now).open_duration_secs is None,
        status_view(v.zones[k], runs_after_close(v, k)[k], now).last_opened_at == (match v.runs[k].last_opened_at {
            Some(w) => Some(rfc3339_text(w.secs, w.nanos)),
            None => None,
        }),
{
}

/// With the mutex on, every status pushed while making way for the
/// opening zone is the status of another zone that was open, now shown
/// closed.
pub proof fn mutex_pushes_closed_statuses(v: SprinklerView, target: int, now: Clock, n: nat)
    requires
        wf(v),
        n <= v.runs.len(),
    ensures
        forall|i: int| 0 <= i < mutex_effects(v, target, now, n).len() && (#[trigger] mutex_effects(v, target, now, n)[i]) is PushState ==> {
            let s = mutex_effects(v, target, now, n)[i]->status;
            &&& !s.is_open
            &&& s.opened_at is None
            &&& s.open_duration_secs is None
            &&& exists|j: int| 0 <= j < n && j != target && v.runs[j].is_open && s == status_view(v.zones[j], closed_run(v.runs[j]), now)
        },
    decreases n,
{
    if n > 0 {
        mutex_pushes_closed_statuses(v, target, now, (n - 1) as nat);
        let i0 = n - 1;
        let before = mutex_effects(v, target, now, (n - 1) as nat);
        if v.runs[i0].is_open && i0 != target {
            let e = mutex_effects(v, target, now, n);
            assert forall|i: int| 0 <= i < e.len() && (#[trigger] e[i]) is PushState implies {
                let s = e[i]->status;
                &&& !s.is_open
                &&& s.opened_at is None
                &&& s.open_duration_secs is None
                &&& exists|j: int| 0 <= j < n && j != target && v.runs[j].is_open && s == status_view(v.zones[j], closed_run(v.runs[j]), now)
            } by {
                if i < before.len() {
                    assert(e[i] == before[i]);
                } else {
                    assert(e[i] == (before + close_effects(v, i0) + seq![
                        ZoneActionView::PushState { status: status_view(v.zones[i0], closed_run(v.runs[i0]), now) },
                    ])[i]);
                    if i == e.len() - 1 {
                        assert(e[i]->status == status_view(v.zones[i0], closed_run(v.runs[i0]), now));
                    }
                }
            }
        }
    }
}

/// Looking a zone up by id reports a zone with that id.
pub proof fn zone_lookup_reports_the_requested_id(v: SprinklerView, id: Seq<char>, now: Clock)
    ensures
        zone_index_of(v.zones, id) matches Some(k) ==> status_view(v.zones[k], v.runs[k], now).id == id,
{
    lemma_first_zone_with(v.zones, id, 0);
}

/// After closing all zones, every status pushed and returned shows its
/// zone, in configuration order, with the valve closed and its last
/// opening remembered.
pub proof fn close_all_reports_every_zone_closed(v: SprinklerView, now: Clock)
    requires
        wf(v),
    ensures
        statuses_of(v.zones, all_closed_runs(v), now).len() == v.zones.len(),
        forall|i: int| 0 <= i < v.zones.len() ==> {
            let s = #[trigger] statuses_of(v.zones, all_closed_runs(v), now)[i];
            &&& s.id == v.zones[i].id
            &&& !s.is_open
            &&& s.opened_at is None
            &&& s.open_duration_secs is None
            &&& s.last_opened_at == (match v.runs[i].last_opened_at {
                Some(w) => Some(rfc3339_text(w.secs, w.nanos)),
                None => None,
            })
        },
{
}

/// The controller built from a configuration arms, when zone `k` opens, a
/// safety timer for the zone's own limit, or for the sprinkler-wide limit
/// when the zone sets none; its status reports the same limit.
pub proof fn configured_limit_arms_the_timer(config: Config, v: SprinklerView, k: int, now: Clock)
    requires
        wf(v),
        valid_clock(now),
        v.zones == Seq::new(
            config.zones@.len(),
            |i: int| zone_info_of(config.zones@[i], config.sprinkler.max_duration_secs),
        ),
        0 <= k < v.runs.len(),
        !v.runs[k].is_open,
    ensures
        open_effects(v, k, now)[open_effects(v, k, now).len() - 2] == (ZoneActionView::StartTimer {
            zone: k,
            secs: match config.zones@[k].max_duration_secs {
                Some(secs) => secs,
                None => config.sprinkler.max_duration_secs,
            },
        }),
        status_view(v.zones[k], runs_after_open(v, k, now)[k], now).max_duration_secs == (
        match config.zones@[k].max_duration_secs {
            Some(secs) => secs,
            None => config.sprinkler.max_duration_secs,
        }),
{
    opening_pushes_the_opened_status(v, k, now);
}

} // verus!
