use fuzzytail::colorizer::Colorizer;
use fuzzytail::filter::LineFilter;
use fuzzytail::interactive::InteractiveMode;
use fuzzytail::keys::{browse_key, command_for_key, Command, Key};
use fuzzytail::theme::Theme;

fn plain() -> Colorizer {
    let theme = Theme {
        name: "t".to_string(),
        base_color: None,
        statusbar_bg: None,
        statusbar_fg: None,
        line_rules: vec![],
        word_rules: vec![],
    };
    Colorizer::new(theme, true)
}

#[test]
fn key_commands() {
    assert_eq!(command_for_key(Key::Char('q')), Command::Quit);
    assert_eq!(command_for_key(Key::Esc), Command::Quit);
    assert_eq!(command_for_key(Key::Ctrl('c')), Command::Quit);
    assert_eq!(command_for_key(Key::Char('p')), Command::PauseAll);
    assert_eq!(command_for_key(Key::Char('P')), Command::PauseOne);
    assert_eq!(command_for_key(Key::Char('O')), Command::ClearAll);
    assert_eq!(command_for_key(Key::Char('o')), Command::ClearOne);
    assert_eq!(command_for_key(Key::Char('/')), Command::Search);
    assert_eq!(command_for_key(Key::Char('3')), Command::SinglePane(2));
    assert_eq!(command_for_key(Key::Char('0')), Command::AllPanes);
    assert_eq!(command_for_key(Key::F1), Command::Help);
    assert_eq!(command_for_key(Key::Char('z')), Command::Nothing);
}

#[test]
fn browser_scrolling() {
    assert_eq!(browse_key(5, Key::Up, 100, 10), Some(4));
    assert_eq!(browse_key(0, Key::Up, 100, 10), Some(0));
    assert_eq!(browse_key(89, Key::Down, 100, 10), Some(90));
    assert_eq!(browse_key(90, Key::Down, 100, 10), Some(90));
    assert_eq!(browse_key(85, Key::PageDown, 100, 10), Some(90));
    assert_eq!(browse_key(15, Key::PageUp, 100, 10), Some(5));
    assert_eq!(browse_key(40, Key::Home, 100, 10), Some(0));
    assert_eq!(browse_key(40, Key::End, 100, 10), Some(90));
    assert_eq!(browse_key(3, Key::End, 5, 10), Some(0));
    assert_eq!(browse_key(3, Key::Char('q'), 100, 10), None);
    assert_eq!(browse_key(3, Key::Esc, 100, 10), None);
}

#[test]
fn viewer_keys() {
    let lines: Vec<String> = (0..25).map(|i| format!("line {}", i)).collect();
    let f = LineFilter::new(None, None, None).unwrap();
    let mut m = InteractiveMode::new(lines, plain(), f);
    assert!(!m.handle_key_event(Key::Down));
    assert!(!m.handle_key_event(Key::Char('j')));
    assert_eq!(m.current_line(), 2);
    m.handle_key_event(Key::PageDown);
    assert_eq!(m.current_line(), 12);
    m.handle_key_event(Key::PageDown);
    m.handle_key_event(Key::PageDown);
    assert_eq!(m.current_line(), 24);
    m.handle_key_event(Key::Char('k'));
    assert_eq!(m.current_line(), 23);
    m.handle_key_event(Key::Char('g'));
    assert_eq!(m.current_line(), 0);
    m.handle_key_event(Key::Up);
    assert_eq!(m.current_line(), 0);
    m.handle_key_event(Key::Char('G'));
    assert_eq!(m.current_line(), 24);
    m.handle_key_event(Key::PageUp);
    assert_eq!(m.current_line(), 14);
    m.handle_key_event(Key::Char(' '));
    assert!(m.is_paused());
    assert!(m.handle_key_event(Key::Char('q')));
    assert!(m.handle_key_event(Key::Esc));
}

#[test]
fn viewer_display() {
    let lines = vec!["keep me".to_string(), "other".to_string()];
    let f = LineFilter::new(Some("keep".to_string()), None, None).unwrap();
    let m = InteractiveMode::new(lines, plain(), f);
    assert_eq!(m.display_line(0), "keep me");
    assert_eq!(m.display_line(1), "(filtered) other");
    assert_eq!(m.visible_range(10), (0, 2));
    assert_eq!(
        m.status_text(),
        " Line 1/2 | RUNNING | Press 'q' to quit, SPACE to pause, arrows to navigate "
    );
}

#[test]
fn viewer_empty() {
    let f = LineFilter::new(None, None, None).unwrap();
    let mut m = InteractiveMode::new(vec![], plain(), f);
    m.handle_key_event(Key::End);
    m.handle_key_event(Key::Down);
    assert_eq!(m.current_line(), 0);
    assert_eq!(m.line_count(), 0);
}
