use fuzzytail::colorizer::Colorizer;
use fuzzytail::filter::LineFilter;
use fuzzytail::keys::Key;
use fuzzytail::popup::{center_popup, menu_key, menu_scroll, MenuStep, PopupResult, TextInput};
use fuzzytail::session::{clear_all, frame_dirty, shown_panes, single_after_removal, toggle_pause_all, PollReport};
use fuzzytail::theme::Theme;
use fuzzytail::tracker::FileTracker;

#[test]
fn popup_is_centered() {
    assert_eq!(center_popup(80, 24, 20, 4), (30, 10));
    assert_eq!(center_popup(10, 5, 20, 8), (0, 0));
    assert_eq!(center_popup(81, 25, 20, 4), (30, 10));
}

#[test]
fn menu_keys() {
    assert!(matches!(menu_key(0, Key::Up, 3), MenuStep::Select(0)));
    assert!(matches!(menu_key(0, Key::Down, 3), MenuStep::Select(1)));
    assert!(matches!(menu_key(2, Key::Down, 3), MenuStep::Select(2)));
    assert!(matches!(menu_key(1, Key::End, 3), MenuStep::Select(2)));
    assert!(matches!(menu_key(1, Key::Home, 3), MenuStep::Select(0)));
    assert!(matches!(menu_key(1, Key::Enter, 3), MenuStep::Close(PopupResult::Selected(1))));
    assert!(matches!(menu_key(1, Key::Esc, 3), MenuStep::Close(PopupResult::Dismissed)));
    assert!(matches!(menu_key(1, Key::Char('q'), 3), MenuStep::Close(PopupResult::Dismissed)));
    assert!(matches!(menu_key(1, Key::Ctrl('c'), 3), MenuStep::Close(PopupResult::Dismissed)));
}

#[test]
fn menu_scrolling() {
    assert_eq!(menu_scroll(2, 5, 3), 2);
    assert_eq!(menu_scroll(6, 5, 3), 5);
    assert_eq!(menu_scroll(9, 5, 3), 7);
}

#[test]
fn text_field_editing() {
    let mut t = TextInput::new("ab");
    assert_eq!(t.cursor(), 2);
    assert!(t.key(Key::Char('c')).is_none());
    assert_eq!(t.value(), "abc");
    t.key(Key::Left);
    t.key(Key::Backspace);
    assert_eq!(t.value(), "ac");
    assert_eq!(t.cursor(), 1);
    t.key(Key::Delete);
    assert_eq!(t.value(), "a");
    t.key(Key::Home);
    t.key(Key::Char('é'));
    assert_eq!(t.value(), "éa");
    t.key(Key::End);
    assert_eq!(t.cursor(), 2);
    match t.key(Key::Enter) {
        Some(PopupResult::Text(s)) => assert_eq!(s, "éa"),
        _ => panic!("expected text"),
    }
    assert!(matches!(t.key(Key::Esc), Some(PopupResult::Dismissed)));
}

fn plain() -> Colorizer {
    let theme = Theme {
        name: "t".to_string(),
        base_color: None,
        statusbar_bg: None,
        statusbar_fg: None,
        line_rules: vec![],
        word_rules: vec![],
    };
    Colorizer::new(theme, true)
}

#[test]
fn tick_decisions() {
    let quiet = PollReport { rotated: false, appended: false };
    assert!(!frame_dirty(&vec![quiet, quiet]));
    assert!(frame_dirty(&vec![quiet, PollReport { rotated: true, appended: false }]));
    assert!(frame_dirty(&vec![PollReport { rotated: false, appended: true }]));
    assert!(!frame_dirty(&vec![]));
    assert_eq!(shown_panes(3, None), vec![0, 1, 2]);
    assert_eq!(shown_panes(3, Some(1)), vec![1]);
    assert_eq!(shown_panes(3, Some(7)), vec![0, 1, 2]);
    assert_eq!(single_after_removal(Some(2), 2), None);
    assert_eq!(single_after_removal(Some(3), 1), Some(2));
    assert_eq!(single_after_removal(Some(0), 1), Some(0));
}

#[test]
fn commands_on_all_trackers() {
    let all = LineFilter::new(None, None, None).unwrap();
    let mut a = FileTracker::new("a".to_string(), None, 0, 5);
    a.ingest(vec!["x".to_string()], &plain(), &all);
    let mut b = FileTracker::new("b".to_string(), None, 0, 5);
    b.toggle_pause();
    let mut ts = vec![a, b];
    toggle_pause_all(&mut ts);
    assert!(ts[0].is_paused());
    assert!(!ts[1].is_paused());
    clear_all(&mut ts);
    assert!(ts[0].raw_lines().is_empty());
    assert_eq!(ts[0].total_lines(), 1);
}
