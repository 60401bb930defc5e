use waterpi_sprinkler::display::{
    after_render, clock_face, fmt_remaining, layout, reinit_due, select_screen, switch_lines, truncate_chars,
    watering_pct, DrawOp, Font, FrameContent, Screen,
};
use waterpi_sprinkler::sprinkler::ZoneStatus;

#[test]
fn pct_is_bounded() {
    assert_eq!(watering_pct(0, 1800), 0);
    assert_eq!(watering_pct(1206, 1800), 67);
    assert_eq!(watering_pct(1800, 1800), 100);
    assert_eq!(watering_pct(9999, 1800), 100);
    assert_eq!(watering_pct(5, 0), 100);
}

#[test]
fn remaining_formats_mm_ss() {
    assert_eq!(fmt_remaining(252), "reste 04:12");
    assert_eq!(fmt_remaining(0), "reste 00:00");
    assert_eq!(fmt_remaining(3599), "reste 59:59");
}

#[test]
fn remaining_keeps_long_minutes() {
    assert_eq!(fmt_remaining(6000), "reste 100:00");
    assert_eq!(fmt_remaining(61), "reste 01:01");
}

#[test]
fn switch_lines_fit_21_columns() {
    let switches = vec![
        ("Interrupteur 1".to_string(), true),
        ("I2".to_string(), false),
        ("Été".to_string(), true),
        ("I4".to_string(), false),
    ];
    let lines = switch_lines(&switches);
    assert_eq!(lines.len(), 2);
    for line in &lines {
        assert!(line.chars().count() <= 21, "line too long: {line:?}");
    }
    assert_eq!(lines[0], "Interru ON I2      --");
}

#[test]
fn switch_lines_odd_and_many() {
    let one = vec![("A".to_string(), true)];
    assert_eq!(switch_lines(&one), vec!["A       ON".to_string()]);
    let five: Vec<(String, bool)> = (1..=5).map(|i| (format!("S{i}"), i % 2 == 0)).collect();
    let lines = switch_lines(&five);
    assert_eq!(lines, vec!["S1      -- S2      ON".to_string(), "S3      -- S4      ON".to_string()]);
    assert!(switch_lines(&[]).is_empty());
}

#[test]
fn truncation_is_char_safe() {
    assert_eq!(truncate_chars("Ensoleillé", 21), "Ensoleillé");
    assert_eq!(truncate_chars("Partiellement nuageux et plus", 21), "Partiellement nuageux");
}

fn status(name: &str, open: bool, elapsed: Option<u64>, max: u64) -> ZoneStatus {
    ZoneStatus {
        id: name.to_lowercase(),
        name: name.to_string(),
        gpio: 5,
        is_open: open,
        opened_at: None,
        open_duration_secs: elapsed,
        max_duration_secs: max,
        kind: None,
        last_opened_at: None,
    }
}

#[test]
fn screen_follows_the_first_open_zone() {
    let zones = vec![
        status("Potager", false, None, 1800),
        status("Pelouse", true, Some(1206), 1800),
        status("Haie", true, Some(10), 600),
    ];
    match select_screen(&zones, true) {
        Screen::Watering { zone_name, pct, remaining_secs } => {
            assert_eq!(zone_name, "Pelouse");
            assert_eq!(pct, 67);
            assert_eq!(remaining_secs, 594);
        }
        other => panic!("unexpected screen {other:?}"),
    }
    let idle = vec![status("Potager", false, None, 1800)];
    assert!(matches!(select_screen(&idle, true), Screen::IdleWeather));
    assert!(matches!(select_screen(&idle, false), Screen::IdleClock));
    let overdue = vec![status("Haie", true, Some(700), 600)];
    match select_screen(&overdue, false) {
        Screen::Watering { pct, remaining_secs, .. } => {
            assert_eq!(pct, 100);
            assert_eq!(remaining_secs, 0);
        }
        other => panic!("unexpected screen {other:?}"),
    }
}

fn text_op(op: &DrawOp) -> (String, i32, i32, Font) {
    match op {
        DrawOp::Text { text, x, y, font } => (text.clone(), *x, *y, *font),
        other => panic!("not a text: {other:?}"),
    }
}

#[test]
fn clock_is_centred() {
    let ops = layout(&FrameContent::IdleClock { time: "12:34".to_string() }, &[]);
    assert_eq!(ops.len(), 1);
    assert_eq!(text_op(&ops[0]), ("12:34".to_string(), 39, 11, Font::Big));
}

#[test]
fn weather_view_with_footer() {
    let content = FrameContent::IdleWeather {
        temperature: "21°".to_string(),
        condition: Some("partlycloudy".to_string()),
    };
    let switches = vec![("Pompe".to_string(), true)];
    let ops = layout(&content, &switches);
    assert_eq!(ops.len(), 4);
    assert_eq!(text_op(&ops[0]), ("21°".to_string(), 49, 2, Font::Big));
    assert_eq!(text_op(&ops[1]), ("Partiellement nuageux".to_string(), 1, 26, Font::Small));
    assert!(matches!(ops[2], DrawOp::HLine { x0: 0, x1: 127, y: 42 }));
    assert_eq!(text_op(&ops[3]), ("Pompe   ON".to_string(), 0, 44, Font::Small));
}

#[test]
fn watering_view_has_progress_bar() {
    let content = FrameContent::Watering {
        zone_name: "Pelouse du fond du jardin".to_string(),
        pct: 50,
        remaining_secs: 252,
    };
    let ops = layout(&content, &[]);
    assert_eq!(ops.len(), 5);
    assert_eq!(text_op(&ops[0]), ("Pelouse du fond du".to_string(), 0, 0, Font::Bold));
    assert_eq!(text_op(&ops[1]), ("50%".to_string(), 0, 14, Font::Big));
    assert_eq!(text_op(&ops[2]), ("reste 04:12".to_string(), 62, 19, Font::Small));
    assert!(matches!(ops[3], DrawOp::Frame { x: 0, y: 35, width: 128, height: 6 }));
    assert!(matches!(ops[4], DrawOp::Fill { x: 2, y: 37, width: 62, height: 2 }));

    let start = FrameContent::Watering { zone_name: "Z".to_string(), pct: 0, remaining_secs: 0 };
    assert_eq!(layout(&start, &[]).len(), 4);
}

#[test]
fn render_loop_retries_and_logs() {
    assert!(!reinit_due(0));
    assert!(!reinit_due(29));
    assert!(reinit_due(30));
    assert!(reinit_due(60));
    assert_eq!(after_render(12, true), (0, false));
    assert_eq!(after_render(0, false), (1, true));
    assert_eq!(after_render(1, false), (2, false));
    assert_eq!(after_render(60, false), (61, true));
    assert_eq!(after_render(u32::MAX, false), (u32::MAX, false));
}

#[test]
fn idle_clock_shows_hours_and_minutes() {
    assert_eq!(clock_face(7, 5), "07:05");
    assert_eq!(clock_face(0, 0), "00:00");
    assert_eq!(clock_face(23, 59), "23:59");
}
