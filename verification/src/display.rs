//! What the 128x64 OLED status panel shows, and where.
//!
//! Adaptive layout: idle shows the weather (or a clock when no weather
//! entity is configured), watering shows the running zone with a progress
//! bar. The physical switch states sit in a fixed footer on both views.
//! This module chooses the view and lays it out as a list of drawing
//! operations; the application draws them with embedded-graphics, flushes
//! the panel over I2C, and runs the render loop whose retry and logging
//! decisions are taken here too.
use vstd::prelude::*;
use crate::sprinkler::{ZoneStatus, ZoneStatusView};
use crate::text::{push_char, push_str, push_decimal, push_two_digits, decimal, two_digits};
use crate::weather::{condition_fr, condition_label};

verus! {

/// Width of the panel in pixels.
pub const PANEL_WIDTH: usize = 128;

/// Every so many consecutive render failures, the panel is initialised
/// again (recovers a power-cycled panel).
pub const REINIT_EVERY: u32 = 30;

/// A render failure is logged at the first one, then every so many.
pub const LOG_EVERY: u32 = 60;

// ---------------------------------------------------------------------------
// Small formatting pieces
// ---------------------------------------------------------------------------

/// Progress of a watering run in percent, capped at 100; a zone without a
/// maximum duration shows as complete.
pub open spec fn pct_of(elapsed: u64, max: u64) -> u8 {
    if max == 0 {
        100
    } else if (elapsed * 100) / (max as int) > 100 {
        100
    } else {
        ((elapsed * 100) / (max as int)) as u8
    }
}

pub fn watering_pct(elapsed: u64, max: u64) -> (p: u8)
    requires
        elapsed * 100 <= u64::MAX,
    ensures
        p == pct_of(elapsed, max),
        p <= 100,
{
    if max == 0 {
        return 100;
    }
    let q = elapsed * 100 / max;
    if q > 100 {
        100
    } else {
        q as u8
    }
}

/// "reste MM:SS" for a remaining time in seconds (minutes not capped).
pub open spec fn remaining_text(secs: u64) -> Seq<char> {
    "reste "@ + two_digits((secs / 60) as nat) + ":"@ + two_digits((secs % 60) as nat)
}

pub fn fmt_remaining(secs: u64) -> (s: String)
    ensures
        s@ == remaining_text(secs),
{
    let mut s = String::new();
    push_str(&mut s, "reste ");
    push_two_digits(&mut s, secs / 60);
    push_str(&mut s, ":");
    push_two_digits(&mut s, secs % 60);
    proof {
        assert(s@ =~= remaining_text(secs));
    }
    s
}

/// The idle clock face, `%H:%M`: hour and minute on two digits each.
pub open spec fn clock_face_text(hour: u32, minute: u32) -> Seq<char> {
    two_digits(hour as nat) + ":"@ + two_digits(minute as nat)
}

pub fn clock_face(hour: u32, minute: u32) -> (s: String)
    ensures
        s@ == clock_face_text(hour, minute),
{
    let mut s = String::new();
    push_two_digits(&mut s, hour as u64);
    push_str(&mut s, ":");
    push_two_digits(&mut s, minute as u64);
    proof {
        assert(s@ =~= clock_face_text(hour, minute));
    }
    s
}

/// The first `max` characters of `s`.
pub open spec fn truncated(s: Seq<char>, max: nat) -> Seq<char> {
    if s.len() <= max {
        s
    } else {
        s.take(max as int)
    }
}

pub fn truncate_chars(s: &str, max: usize) -> (t: String)
    ensures
        t@ == truncated(s@, max as nat),
{
    let n = s.unicode_len();
    let k = if n <= max { n } else { max };
    let mut t = String::new();
    push_str(&mut t, s.substring_char(0, k));
    proof {
        assert(t@ =~= truncated(s@, max as nat));
    }
    t
}

/// `n` spaces.
pub open spec fn spaces(n: nat) -> Seq<char> {
    Seq::new(n, |i: int| ' ')
}

/// One footer cell, `{:<7.7}{:>3}`: the name cut or padded to 7 columns,
/// then "ON" or "--" right-aligned in 3.
pub open spec fn switch_cell(name: Seq<char>, is_on: bool) -> Seq<char> {
    let t = truncated(name, 7);
    t + spaces((7 - t.len()) as nat) + (if is_on {
        " ON"@
    } else {
        " --"@
    })
}

/// The footer lines: the switches two per line, at most two lines.
pub open spec fn switch_lines_of(sw: Seq<(Seq<char>, bool)>) -> Seq<Seq<char>> {
    let n = if sw.len() <= 2 {
        if sw.len() == 0 {
            0int
        } else {
            1int
        }
    } else {
        2int
    };
    Seq::new(
        n as nat,
        |k: int|
            if 2 * k + 1 < sw.len() {
                switch_cell(sw[2 * k].0, sw[2 * k].1) + " "@ + switch_cell(sw[2 * k + 1].0, sw[2 * k + 1].1)
            } else {
                switch_cell(sw[2 * k].0, sw[2 * k].1)
            },
    )
}

pub open spec fn pair_views(sw: Seq<(String, bool)>) -> Seq<(Seq<char>, bool)> {
    sw.map_values(|p: (String, bool)| (p.0@, p.1))
}

fn push_switch_cell(line: &mut String, name: &String, is_on: bool)
    ensures
        final(line)@ == old(line)@ + switch_cell(name@, is_on),
{
    let t = truncate_chars(name.as_str(), 7);
    let mut pad = t.as_str().unicode_len();
    push_str(line, t.as_str());
    let ghost with_name = line@;
    while pad < 7
        invariant
            t@.len() <= pad <= 7,
            line@ == with_name + spaces((pad - t@.len()) as nat),
        decreases 7 - pad,
    {
        push_char(line, ' ');
        proof {
            assert(line@ =~= with_name + spaces((pad + 1 - t@.len()) as nat));
        }
        pad = pad + 1;
    }
    if is_on {
        push_str(line, " ON");
    } else {
        push_str(line, " --");
    }
    proof {
        assert(line@ =~= old(line)@ + switch_cell(name@, is_on));
    }
}

/// Two switches per 21-column line: `Name123 ON Name456 --`.
pub fn switch_lines(switches: &[(String, bool)]) -> (lines: Vec<String>)
    ensures
        lines@.map_values(|l: String| l@) == switch_lines_of(pair_views(switches@)),
{
    let ghost sw = pair_views(switches@);
    let n = switches.len();
    let mut lines: Vec<String> = Vec::new();
    let mut k: usize = 0;
    while k < 2 && 2 * k < n
        invariant
            n == switches@.len(),
            sw == pair_views(switches@),
            k <= 2,
            2 * k <= n + 1,
            k > 0 ==> 2 * (k - 1) < n,
            lines@.len() == k,
            forall|j: int| 0 <= j < k ==> (#[trigger] lines@[j])@ == switch_lines_of(sw)[j],
        decreases 2 - k,
    {
        let mut line = String::new();
        let a = &switches[2 * k];
        push_switch_cell(&mut line, &a.0, a.1);
        if 2 * k + 1 < n {
            push_str(&mut line, " ");
            let b = &switches[2 * k + 1];
            push_switch_cell(&mut line, &b.0, b.1);
        }
        proof {
            assert(sw[2 * k as int] == (a.0@, a.1));
            if 2 * k + 1 < n {
                assert(sw[2 * k + 1] == (switches@[2 * k + 1].0@, switches@[2 * k + 1].1));
            }
            assert(line@ =~= switch_lines_of(sw)[k as int]);
        }
        lines.push(line);
        k = k + 1;
    }
    proof {
        assert(lines@.map_values(|l: String| l@) =~= switch_lines_of(sw));
    }
    lines
}

// ---------------------------------------------------------------------------
// Choosing the view
// ---------------------------------------------------------------------------

/// Which view the panel shows.
#[derive(Debug)]
pub enum Screen {
    /// Idle, no weather entity configured: a clock.
    IdleClock,
    /// Idle: the current weather.
    IdleWeather,
    /// A zone is watering.
    Watering { zone_name: String, pct: u8, remaining_secs: u64 },
}

/// The first open zone among `zones`.
pub open spec fn first_open(zones: Seq<ZoneStatusView>, from: int) -> Option<int>
    decreases zones.len() - from,
{
    if from < 0 || from >= zones.len() {
        None
    } else if zones[from].is_open {
        Some(from)
    } else {
        first_open(zones, from + 1)
    }
}

pub open spec fn elapsed_of(z: ZoneStatusView) -> u64 {
    match z.open_duration_secs {
        Some(s) => s,
        None => 0,
    }
}

/// Seconds left before the safety timer closes the zone.
pub open spec fn remaining_of(z: ZoneStatusView) -> u64 {
    if z.max_duration_secs >= elapsed_of(z) {
        (z.max_duration_secs - elapsed_of(z)) as u64
    } else {
        0
    }
}

/// Durations small enough for the percentage to be computed.
pub open spec fn durations_in_range(zones: Seq<ZoneStatusView>) -> bool {
    forall|i: int| 0 <= i < zones.len() ==> elapsed_of(#[trigger] zones[i]) * 100 <= u64::MAX
}

pub open spec fn zone_views(zones: Seq<ZoneStatus>) -> Seq<ZoneStatusView> {
    zones.map_values(|z: ZoneStatus| z@)
}

/// Chooses the view: the first open zone if any, else the weather when a
/// weather entity is configured, else the clock.
pub fn select_screen(zones: &Vec<ZoneStatus>, has_weather: bool) -> (s: Screen)
    requires
        durations_in_range(zone_views(zones@)),
    ensures
        match first_open(zone_views(zones@), 0) {
            Some(k) => s matches Screen::Watering { zone_name, pct, remaining_secs } && {
                let z = zone_views(zones@)[k];
                &&& zone_name@ == z.name
                &&& pct == pct_of(elapsed_of(z), z.max_duration_secs)
                &&& remaining_secs == remaining_of(z)
            },
            None => if has_weather {
                s is IdleWeather
            } else {
                s is IdleClock
            },
        },
{
    let ghost zv = zone_views(zones@);
    let mut i: usize = 0;
    while i < zones.len()
        invariant
            zv == zone_views(zones@),
            durations_in_range(zv),
            zv.len() == zones@.len(),
            i <= zones@.len(),
            first_open(zv, 0) == first_open(zv, i as int),
        decreases zones@.len() - i,
    {
        let z = &zones[i];
        proof {
            assert(zv[i as int] == z@);
        }
        if z.is_open {
            let elapsed = match z.open_duration_secs {
                Some(s) => s,
                None => 0,
            };
            proof {
                assert(elapsed_of(zv[i as int]) * 100 <= u64::MAX);
            }
            return Screen::Watering {
                zone_name: z.name.clone(),
                pct: watering_pct(elapsed, z.max_duration_secs),
                remaining_secs: z.max_duration_secs.saturating_sub(elapsed),
            };
        }
        i = i + 1;
    }
    if has_weather {
        Screen::IdleWeather
    } else {
        Screen::IdleClock
    }
}

// ---------------------------------------------------------------------------
// Layout
// ---------------------------------------------------------------------------

/// The three fonts: 6x10, 7x13 bold and 10x20.
#[derive(Debug, Clone, Copy, PartialEq, Eq, Structural)]
pub enum Font {
    Small,
    Bold,
    Big,
}

/// One drawing operation, in panel pixels (origin top left, text anchored
/// at the top of its line).
#[derive(Debug)]
pub enum DrawOp {
    Text { text: String, x: i32, y: i32, font: Font },
    /// A one-pixel rectangle outline.
    Frame { x: i32, y: i32, width: u32, height: u32 },
    /// A filled rectangle.
    Fill { x: i32, y: i32, width: u32, height: u32 },
    /// A one-pixel horizontal line from `x0` to `x1` inclusive.
    HLine { x0: i32, x1: i32, y: i32 },
}

pub enum DrawOpView {
    Text { text: Seq<char>, x: int, y: int, font: Font },
    Frame { x: int, y: int, width: int, height: int },
    Fill { x: int, y: int, width: int, height: int },
    HLine { x0: int, x1: int, y: int },
}

impl View for DrawOp {
    type V = DrawOpView;

    open spec fn view(&self) -> DrawOpView {
        match self {
            DrawOp::Text { text, x, y, font } => DrawOpView::Text { text: text@, x: *x as int, y: *y as int, font: *font },
            DrawOp::Frame { x, y, width, height } => DrawOpView::Frame {
                x: *x as int,
                y: *y as int,
                width: *width as int,
                height: *height as int,
            },
            DrawOp::Fill { x, y, width, height } => DrawOpView::Fill {
                x: *x as int,
                y: *y as int,
                width: *width as int,
                height: *height as int,
            },
            DrawOp::HLine { x0, x1, y } => DrawOpView::HLine { x0: *x0 as int, x1: *x1 as int, y: *y as int },
        }
    }
}

pub open spec fn ops_view(ops: Seq<DrawOp>) -> Seq<DrawOpView> {
    ops.map_values(|o: DrawOp| o@)
}

/// What one frame shows: the view with its data, and the footer switches.
/// The temperature arrives already written out ("21°", or "--°" when
/// unknown).
pub enum FrameContent {
    IdleClock { time: String },
    IdleWeather { temperature: String, condition: Option<String> },
    Watering { zone_name: String, pct: u8, remaining_secs: u64 },
}

/// Column at which a text of `chars` characters `char_w` pixels wide is
/// centred on the panel.
pub open spec fn centered_x(chars: nat, char_w: nat) -> int {
    if chars * char_w >= PANEL_WIDTH {
        0
    } else {
        (PANEL_WIDTH - chars * char_w) / 2
    }
}

pub open spec fn centered(text: Seq<char>, font: Font, char_w: nat, y: int) -> DrawOpView {
    DrawOpView::Text { text, x: centered_x(text.len(), char_w), y, font }
}

/// Width of the progress bar's filling, inside a 124-pixel track.
pub open spec fn progress_width(pct: u8) -> int {
    pct * 124 / 100
}

/// The operations drawing the view itself.
pub open spec fn view_ops(c: FrameContent) -> Seq<DrawOpView> {
    match c {
        FrameContent::IdleClock { time } => seq![centered(time@, Font::Big, 10, 11)],
        FrameContent::IdleWeather { temperature, condition } => seq![centered(temperature@, Font::Big, 10, 2)]
            + match condition {
            Some(cond) => seq![centered(truncated(condition_label(cond@), 21), Font::Small, 6, 26)],
            None => Seq::empty(),
        },
        FrameContent::Watering { zone_name, pct, remaining_secs } => seq![
            DrawOpView::Text { text: truncated(zone_name@, 18), x: 0, y: 0, font: Font::Bold },
            DrawOpView::Text { text: decimal(pct as nat) + "%"@, x: 0, y: 14, font: Font::Big },
            DrawOpView::Text { text: remaining_text(remaining_secs), x: 62, y: 19, font: Font::Small },
            DrawOpView::Frame { x: 0, y: 35, width: 128, height: 6 },
        ] + if progress_width(pct) > 0 {
            seq![DrawOpView::Fill { x: 2, y: 37, width: progress_width(pct), height: 2 }]
        } else {
            Seq::empty()
        },
    }
}

/// The footer: a rule, then the switch lines, 10 pixels apart.
pub open spec fn footer_ops(sw: Seq<(Seq<char>, bool)>) -> Seq<DrawOpView> {
    if sw.len() == 0 {
        Seq::empty()
    } else {
        let lines = switch_lines_of(sw);
        seq![DrawOpView::HLine { x0: 0, x1: 127, y: 42 }] + Seq::new(
            lines.len(),
            |i: int| DrawOpView::Text { text: lines[i], x: 0, y: 44 + 10 * i, font: Font::Small },
        )
    }
}

fn centered_text(text: String, font: Font, char_w: usize, y: i32) -> (op: DrawOp)
    requires
        1 <= char_w <= 10,
    ensures
        op@ == centered(text@, font, char_w as nat, y as int),
{
    let chars = text.as_str().unicode_len();
    let width = match chars.checked_mul(char_w) {
        Some(w) => w,
        None => usize::MAX,
    };
    let x: usize = if width >= PANEL_WIDTH { 0 } else { (PANEL_WIDTH - width) / 2 };
    proof {
        if chars * char_w <= usize::MAX {
            assert(width == chars * char_w);
        } else {
            assert(width == usize::MAX);
            assert(chars * char_w >= PANEL_WIDTH) by (nonlinear_arith)
                requires
                    chars * char_w > usize::MAX,
                    usize::MAX >= 128,
            ;
        }
    }
    DrawOp::Text { text, x: x as i32, y, font }
}

fn push_op(ops: &mut Vec<DrawOp>, op: DrawOp)
    ensures
        ops_view(final(ops)@) == ops_view(old(ops)@).push(op@),
{
    ops.push(op);
    proof {
        assert(ops_view(ops@) =~= ops_view(old(ops)@).push(op@));
    }
}

/// Lays out a frame: the view, then (when there are switches) the footer.
pub fn layout(content: &FrameContent, switches: &[(String, bool)]) -> (ops: Vec<DrawOp>)
    ensures
        ops_view(ops@) == view_ops(*content) + footer_ops(pair_views(switches@)),
        // Below the rule, footer line `i` is drawn at the left edge, 10
        // pixels under line `i - 1`.
        switches@.len() > 0 ==> forall|i: int|
            0 <= i < switch_lines_of(pair_views(switches@)).len() ==> ops_view(ops@)[view_ops(*content).len() + 1 + i]
                == (DrawOpView::Text {
                text: #[trigger] switch_lines_of(pair_views(switches@))[i],
                x: 0,
                y: 44 + 10 * i,
                font: Font::Small,
            }),
{
    let mut ops: Vec<DrawOp> = Vec::new();
    match content {
        FrameContent::IdleClock { time } => {
            push_op(&mut ops, centered_text(time.clone(), Font::Big, 10, 11));
        },
        FrameContent::IdleWeather { temperature, condition } => {
            push_op(&mut ops, centered_text(temperature.clone(), Font::Big, 10, 2));
            match condition {
                Some(c) => {
                    let label = truncate_chars(condition_fr(c.as_str()), 21);
                    push_op(&mut ops, centered_text(label, Font::Small, 6, 26));
                },
                None => {},
            }
        },
        FrameContent::Watering { zone_name, pct, remaining_secs } => {
            push_op(
                &mut ops,
                DrawOp::Text { text: truncate_chars(zone_name.as_str(), 18), x: 0, y: 0, font: Font::Bold },
            );
            let mut pct_text = String::new();
            push_decimal(&mut pct_text, *pct as u64);
            push_str(&mut pct_text, "%");
            push_op(&mut ops, DrawOp::Text { text: pct_text, x: 0, y: 14, font: Font::Big });
            push_op(&mut ops, DrawOp::Text { text: fmt_remaining(*remaining_secs), x: 62, y: 19, font: Font::Small });
            push_op(&mut ops, DrawOp::Frame { x: 0, y: 35, width: 128, height: 6 });
            let w: u32 = *pct as u32 * 124 / 100;
            if w > 0 {
                push_op(&mut ops, DrawOp::Fill { x: 2, y: 37, width: w, height: 2 });
            }
        },
    }
    let ghost view_part = ops_view(ops@);
    proof {
        assert(view_part =~= view_ops(*content));
    }
    if switches.len() > 0 {
        push_op(&mut ops, DrawOp::HLine { x0: 0, x1: 127, y: 42 });
        let lines = switch_lines(switches);
        let ghost lv = switch_lines_of(pair_views(switches@));
        proof {
            assert(lines@.len() == lv.len());
            assert(lv.len() <= 2);
        }
        let mut i: usize = 0;
        while i < lines.len()
            invariant
                lines@.map_values(|l: String| l@) == lv,
                lv.len() <= 2,
                i <= lines@.len(),
                ops_view(ops@) == view_part + seq![DrawOpView::HLine { x0: 0, x1: 127, y: 42 }]
                    + Seq::new(i as nat, |j: int| DrawOpView::Text { text: lv[j], x: 0, y: 44 + 10 * j, font: Font::Small }),
            decreases lines@.len() - i,
        {
            let y: i32 = 44 + 10 * (i as i32);
            let ghost before = ops_view(ops@);
            proof {
                assert(lines@[i as int]@ == lv[i as int]);
            }
            push_op(&mut ops, DrawOp::Text { text: lines[i].clone(), x: 0, y, font: Font::Small });
            proof {
                assert(ops_view(ops@) =~= view_part + seq![DrawOpView::HLine { x0: 0, x1: 127, y: 42 }]
                    + Seq::new((i + 1) as nat, |j: int| DrawOpView::Text { text: lv[j], x: 0, y: 44 + 10 * j, font: Font::Small }));
            }
            i = i + 1;
        }
        proof {
            assert(ops_view(ops@) =~= view_ops(*content) + footer_ops(pair_views(switches@)));
            assert forall|i: int| 0 <= i < lv.len() implies ops_view(ops@)[view_part.len() + 1 + i]
                == (DrawOpView::Text { text: #[trigger] lv[i], x: 0, y: 44 + 10 * i, font: Font::Small }) by {
                assert(ops_view(ops@)[view_part.len() + 1 + i] == footer_ops(pair_views(switches@))[1 + i]);
            }
        }
    } else {
        proof {
            assert(ops_view(ops@) =~= view_ops(*content) + footer_ops(pair_views(switches@)));
        }
    }
    ops
}

// ---------------------------------------------------------------------------
// Laws
// ---------------------------------------------------------------------------

/// A truncated text is a prefix of the text, no longer than asked.
pub proof fn truncation_is_a_prefix(s: Seq<char>, max: nat)
    ensures
        truncated(s, max).len() <= max,
        truncated(s, max).len() <= s.len(),
        truncated(s, max) == s.take(truncated(s, max).len() as int),
{
    if s.len() <= max {
        assert(s.take(s.len() as int) =~= s);
    }
}

/// Every footer cell is 10 columns wide.
pub proof fn switch_cell_width(name: Seq<char>, is_on: bool)
    ensures
        switch_cell(name, is_on).len() == 10,
{
    reveal_strlit(" ON");
    reveal_strlit(" --");
}

/// The footer holds at most two lines, each fitting the 21 columns of the
/// small font.
pub proof fn switch_lines_fit(sw: Seq<(Seq<char>, bool)>)
    ensures
        switch_lines_of(sw).len() <= 2,
        forall|k: int| 0 <= k < switch_lines_of(sw).len() ==> (#[trigger] switch_lines_of(sw)[k]).len() <= 21,
{
    reveal_strlit(" ");
    assert forall|k: int| 0 <= k < switch_lines_of(sw).len() implies (#[trigger] switch_lines_of(sw)[k]).len() <= 21 by {
        switch_cell_width(sw[2 * k].0, sw[2 * k].1);
        if 2 * k + 1 < sw.len() {
            switch_cell_width(sw[2 * k + 1].0, sw[2 * k + 1].1);
        }
    }
}

/// Row of a text operation (its top edge), or -1 for other operations.
pub open spec fn text_row(op: DrawOpView) -> int {
    match op {
        DrawOpView::Text { y, .. } => y,
        _ => -1,
    }
}

/// The footer starts with the rule at row 42; then each switch line is a
/// text at the left edge, the first at row 44 and each next one 10 pixels
/// (a small-font line) lower, so no two lines share a row and the last
/// one ends on the 64-pixel panel.
pub proof fn footer_lines_never_share_a_row(sw: Seq<(Seq<char>, bool)>)
    requires
        sw.len() > 0,
    ensures
        footer_ops(sw).len() == switch_lines_of(sw).len() + 1,
        footer_ops(sw)[0] == (DrawOpView::HLine { x0: 0, x1: 127, y: 42 }),
        forall|i: int| 1 <= i < footer_ops(sw).len() ==> #[trigger] footer_ops(sw)[i] == (DrawOpView::Text {
            text: switch_lines_of(sw)[i - 1],
            x: 0,
            y: 44 + 10 * (i - 1),
            font: Font::Small,
        }),
        forall|i: int, j: int|
            1 <= i < j < footer_ops(sw).len() ==> text_row(#[trigger] footer_ops(sw)[i]) + 10 * (j - i)
                == text_row(#[trigger] footer_ops(sw)[j]),
        forall|i: int| 1 <= i < footer_ops(sw).len() ==> 42 < text_row(#[trigger] footer_ops(sw)[i]) && text_row(footer_ops(sw)[i]) + 10 <= 64,
{
    switch_lines_fit(sw);
}

/// The progress bar's filling stays inside its 124-pixel track.
pub proof fn progress_fits_the_track(pct: u8)
    requires
        pct <= 100,
    ensures
        0 <= progress_width(pct) <= 124,
{
    assert(pct * 124 / 100 <= 124) by (nonlinear_arith)
        requires
            pct <= 100,
    ;
}

/// A centred text that fits the panel width stays on the panel.
pub proof fn centered_text_stays_on_panel(chars: nat, char_w: nat)
    requires
        chars * char_w <= PANEL_WIDTH,
    ensures
        0 <= centered_x(chars, char_w),
        centered_x(chars, char_w) + chars * char_w <= PANEL_WIDTH,
{
}

// ---------------------------------------------------------------------------
// Render loop decisions
// ---------------------------------------------------------------------------

/// Whether to initialise the panel again before this render, given the
/// number of renders that failed in a row just before.
pub fn reinit_due(consecutive_errors: u32) -> (b: bool)
    ensures
        b == (consecutive_errors > 0 && consecutive_errors % REINIT_EVERY == 0),
{
    consecutive_errors > 0 && consecutive_errors % REINIT_EVERY == 0
}

/// After a render: the new count of failures in a row (reset by a
/// success, counted up to `u32::MAX` otherwise) and whether to log this
/// failure.
pub fn after_render(consecutive_errors: u32, ok: bool) -> (r: (u32, bool))
    ensures
        ok ==> r == (0u32, false),
        !ok ==> r.0 == (if consecutive_errors < u32::MAX { (consecutive_errors + 1) as u32 } else { u32::MAX }),
        !ok ==> r.1 == (consecutive_errors == 0 || consecutive_errors % LOG_EVERY == 0),
{
    if ok {
        (0, false)
    } else {
        (consecutive_errors.saturating_add(1), consecutive_errors == 0 || consecutive_errors % LOG_EVERY == 0)
    }
}

} // verus!
