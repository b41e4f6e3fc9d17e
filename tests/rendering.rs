use fuzzytail::colorizer::Colorizer;
use fuzzytail::filter::LineFilter;
use fuzzytail::pattern::Pattern;
use fuzzytail::render::{format_clock, pane_heights, render_frame, status_row};
use fuzzytail::theme::{Color, Theme};
use fuzzytail::tracker::FileTracker;

fn plain() -> Colorizer {
    let theme = Theme {
        name: "t".to_string(),
        base_color: None,
        statusbar_bg: None,
        statusbar_fg: None,
        line_rules: vec![],
        word_rules: vec![],
    };
    Colorizer::new(theme, true)
}

fn tracker(path: &str, lines: &[&str]) -> FileTracker {
    let mut t = FileTracker::new(path.to_string(), None, 0, 100);
    let all = LineFilter::new(None, None, None).unwrap();
    t.ingest(lines.iter().map(|s| s.to_string()).collect(), &plain(), &all);
    t
}

#[test]
fn rows_split_with_remainder_last() {
    assert_eq!(pane_heights(10, 3), vec![3, 3, 4]);
    assert_eq!(pane_heights(2, 3), vec![0, 0, 2]);
    assert_eq!(pane_heights(7, 1), vec![7]);
}

#[test]
fn clock_format() {
    assert_eq!(format_clock(3661), "01:01:01");
    assert_eq!(format_clock(86399), "23:59:59");
    assert_eq!(format_clock(86400 + 45), "00:00:45");
}

#[test]
fn status_row_fills_width() {
    let t = tracker("app.log", &[]);
    assert_eq!(status_row(&t, 1, 40), " 1: app.log          0 lines | 00:00:00 ");
}

#[test]
fn status_row_indicators() {
    let mut t = tracker("app.log", &["x"]);
    t.toggle_pause();
    t.set_filter(Some(LineFilter::new(None, None, None).unwrap()));
    t.set_search(Some(Pattern::compile("x").unwrap()));
    assert_eq!(
        status_row(&t, 2, 10),
        " 2: app.log [PAUSED] [FILTER] [SEARCH] 1 lines | 00:00:00 "
    );
}

#[test]
fn frame_of_one_pane() {
    let t = tracker("t", &["ab", "cd"]);
    let frame = render_frame(&vec![t], &vec![0], 3, 5, None, None);
    let expected = String::new()
        + "\x1b[?2026h"
        + "\x1b[1;1H" + "ab\x1b[0m   "
        + "\x1b[2;1H" + "cd\x1b[0m   "
        + "\x1b[3;1H" + " 1: t\x1b[0m"
        + "\x1b[?2026l";
    assert_eq!(frame, expected);
}

#[test]
fn frame_bottom_aligns_and_splits_rows() {
    let a = tracker("a", &["1", "2", "3"]);
    let b = tracker("b", &["x"]);
    let frame = render_frame(&vec![a, b], &vec![0, 1], 5, 2, None, None);
    let expected = String::new()
        + "\x1b[?2026h"
        + "\x1b[1;1H" + "3\x1b[0m "
        + "\x1b[2;1H" + " 1\x1b[0m"
        + "\x1b[3;1H" + "\x1b[0m  "
        + "\x1b[4;1H" + "x\x1b[0m "
        + "\x1b[5;1H" + " 2\x1b[0m"
        + "\x1b[?2026l";
    assert_eq!(frame, expected);
}

#[test]
fn frame_highlights_search() {
    let mut t = tracker("t", &["an error"]);
    t.set_search(Some(Pattern::compile("error").unwrap()));
    let frame = render_frame(&vec![t], &vec![0], 2, 10, None, None);
    assert!(frame.contains("\x1b[1;1Han \x1b[7merror\x1b[27m\x1b[0m  "));
}

#[test]
fn frame_single_pane_by_index() {
    let a = tracker("a", &["1"]);
    let b = tracker("b", &["2"]);
    let frame = render_frame(&vec![a, b], &vec![1], 2, 3, None, None);
    assert_eq!(frame, "\x1b[?2026h\x1b[1;1H2\x1b[0m  \x1b[2;1H 2:\x1b[0m\x1b[?2026l");
}

#[test]
fn frame_status_bar_colors() {
    let t = tracker("t", &["ab"]);
    let frame = render_frame(
        &vec![t],
        &vec![0],
        2,
        5,
        Some(Color::Xterm256(231)),
        Some(Color::TrueColor { r: 1, g: 2, b: 3 }),
    );
    let expected = String::new()
        + "\x1b[?2026h"
        + "\x1b[1;1H" + "ab\x1b[0m   "
        + "\x1b[2;1H" + "\x1b[38;5;231m\x1b[48;2;1;2;3m 1: t\x1b[0m"
        + "\x1b[?2026l";
    assert_eq!(frame, expected);
}
