use fuzzytail::colorizer::Colorizer;
use fuzzytail::filter::LineFilter;
use fuzzytail::pattern::Pattern;
use fuzzytail::theme::{Color, ColorRule, Theme};
use fuzzytail::tracker::{FileTracker, Identity, SizeAction};

fn plain() -> Colorizer {
    let theme = Theme {
        name: "t".to_string(),
        base_color: None,
        statusbar_bg: None,
        statusbar_fg: None,
        line_rules: vec![],
        word_rules: vec![],
    };
    Colorizer::new(theme, true)
}

fn colored() -> Colorizer {
    let theme = Theme {
        name: "t".to_string(),
        base_color: None,
        statusbar_bg: None,
        statusbar_fg: None,
        line_rules: vec![ColorRule {
            pattern: Pattern::compile("x").unwrap(),
            color: Color::Xterm256(1),
            original_pattern: "x".to_string(),
        }],
        word_rules: vec![],
    };
    Colorizer::new(theme, false)
}

fn all() -> LineFilter {
    LineFilter::new(None, None, None).unwrap()
}

fn strings(v: &[&str]) -> Vec<String> {
    v.iter().map(|s| s.to_string()).collect()
}

const A: Identity = Identity { device: 1, inode: 10 };
const B: Identity = Identity { device: 1, inode: 11 };

#[test]
fn buffer_keeps_last_capacity_lines() {
    let mut t = FileTracker::new("a.log".to_string(), Some(A), 0, 3);
    t.ingest(strings(&["1", "2", "3", "4", "5"]), &plain(), &all());
    assert_eq!(t.raw_lines(), &strings(&["3", "4", "5"]));
    assert_eq!(t.styled_lines().len(), t.raw_lines().len());
    assert_eq!(t.total_lines(), 5);
}

#[test]
fn buffer_pairs_raw_and_styled() {
    let mut t = FileTracker::new("a.log".to_string(), Some(A), 0, 2);
    t.ingest(strings(&["x1", "y", "x2"]), &colored(), &all());
    assert_eq!(t.raw_lines(), &strings(&["y", "x2"]));
    assert_eq!(t.styled_lines(), &strings(&["y", "\x1b[38;5;1mx2\x1b[0m"]));
}

#[test]
fn zero_capacity_keeps_nothing() {
    let mut t = FileTracker::new("a.log".to_string(), None, 0, 0);
    t.push_line("a".to_string(), "a".to_string());
    assert!(t.raw_lines().is_empty());
    assert_eq!(t.total_lines(), 1);
}

#[test]
fn rotation_flushes_old_lines_first() {
    let mut t = FileTracker::new("a.log".to_string(), Some(A), 100, 10);
    t.ingest(strings(&["old 1"]), &plain(), &all());
    assert!(t.needs_rotation(Some(B)));
    assert!(!t.needs_rotation(Some(A)));
    assert!(!t.needs_rotation(None));
    t.rotate(strings(&["old tail"]), B, &plain(), &all());
    assert_eq!(t.offset(), 0);
    assert_eq!(t.identity(), Some(B));
    assert_eq!(t.total_lines(), 2);
    assert_eq!(t.size_action(20, true), SizeAction::Read);
    t.append_lines(strings(&["new 1"]), 20, 1234, &plain(), &all());
    assert_eq!(t.raw_lines(), &strings(&["old 1", "old tail", "new 1"]));
    assert_eq!(t.offset(), 20);
    assert_eq!(t.total_lines(), 3);
    assert_eq!(t.last_update(), 1234);
}

#[test]
fn shrink_right_after_rotation_is_no_truncation() {
    let t = FileTracker::new("a.log".to_string(), Some(A), 100, 10);
    assert_eq!(t.size_action(40, true), SizeAction::Unchanged);
    assert_eq!(t.size_action(100, false), SizeAction::Unchanged);
}

#[test]
fn truncation_resets_offset_and_clears() {
    let mut t = FileTracker::new("a.log".to_string(), Some(A), 100, 10);
    t.ingest(strings(&["a", "b"]), &plain(), &all());
    assert_eq!(t.size_action(40, false), SizeAction::Truncated);
    t.truncate(true);
    assert_eq!(t.offset(), 0);
    assert!(t.raw_lines().is_empty());
    assert!(t.styled_lines().is_empty());
    assert_eq!(t.size_action(40, false), SizeAction::Read);
}

#[test]
fn truncation_without_clearing_keeps_history() {
    let mut t = FileTracker::new("a.log".to_string(), Some(A), 100, 10);
    t.ingest(strings(&["a"]), &plain(), &all());
    t.truncate(false);
    assert_eq!(t.offset(), 0);
    assert_eq!(t.raw_lines(), &strings(&["a"]));
}

#[test]
fn paused_tracker_does_nothing() {
    let mut t = FileTracker::new("a.log".to_string(), Some(A), 100, 10);
    t.toggle_pause();
    assert!(t.is_paused());
    assert!(!t.needs_rotation(Some(B)));
    assert_eq!(t.size_action(500, false), SizeAction::Unchanged);
    assert_eq!(t.size_action(5, false), SizeAction::Unchanged);
    t.set_paused(false);
    assert_eq!(t.size_action(500, false), SizeAction::Read);
}

#[test]
fn window_filter_overrides_global() {
    let mut t = FileTracker::new("a.log".to_string(), None, 0, 10);
    t.set_filter(Some(LineFilter::new(Some("keep".to_string()), None, None).unwrap()));
    assert!(t.has_filter());
    t.ingest(strings(&["keep 1", "drop", "keep 2"]), &plain(), &all());
    assert_eq!(t.raw_lines(), &strings(&["keep 1", "keep 2"]));
    assert_eq!(t.total_lines(), 2);
    t.set_filter(None);
    t.ingest(strings(&["drop"]), &plain(), &all());
    assert_eq!(t.raw_lines().len(), 3);
}

#[test]
fn offset_never_moves_back_on_append() {
    let mut t = FileTracker::new("a.log".to_string(), None, 50, 10);
    t.append_lines(vec![], 30, 0, &plain(), &all());
    assert_eq!(t.offset(), 50);
    t.clear_buffers();
    assert_eq!(t.path(), "a.log");
}

#[test]
fn search_term_is_kept() {
    let mut t = FileTracker::new("a.log".to_string(), None, 0, 10);
    assert!(t.search().is_none());
    t.set_search(Some(Pattern::compile("err").unwrap()));
    assert_eq!(t.search().unwrap().source(), "err");
}
