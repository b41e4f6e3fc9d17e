use fuzzytail::colorizer::Colorizer;
use fuzzytail::pattern::Pattern;
use fuzzytail::theme::{Color, ColorRule, Theme};

fn rule(p: &str, c: Color) -> ColorRule {
    ColorRule { pattern: Pattern::compile(p).unwrap(), color: c, original_pattern: p.to_string() }
}

fn theme(base: Option<u8>, line_rules: Vec<ColorRule>, word_rules: Vec<ColorRule>) -> Theme {
    Theme {
        name: "test".to_string(),
        base_color: base,
        statusbar_bg: None,
        statusbar_fg: None,
        line_rules,
        word_rules,
    }
}

#[test]
fn color_sequences() {
    assert_eq!(Color::Xterm256(196).to_ansi_fg(), "\x1b[38;5;196m");
    assert_eq!(Color::Xterm256(0).to_ansi_fg(), "\x1b[38;5;0m");
    assert_eq!(Color::TrueColor { r: 255, g: 85, b: 0 }.to_ansi_fg(), "\x1b[38;2;255;85;0m");
    assert_eq!(Color::to_ansi_reset(), "\x1b[0m");
}

#[test]
fn base_color_sequence() {
    assert_eq!(theme(Some(7), vec![], vec![]).get_base_color_ansi(), "\x1b[38;5;7m");
    assert_eq!(theme(None, vec![], vec![]).get_base_color_ansi(), "");
}

#[test]
fn line_rule_wraps_whole_line() {
    let c = Colorizer::new(theme(None, vec![rule("FATAL", Color::Xterm256(196))], vec![]), false);
    assert_eq!(c.colorize_line("FATAL: disk"), "\x1b[38;5;196mFATAL: disk\x1b[0m");
}

#[test]
fn first_matching_line_rule_wins() {
    let c = Colorizer::new(
        theme(None, vec![rule("x", Color::Xterm256(1)), rule("y", Color::Xterm256(2))], vec![]),
        false,
    );
    assert_eq!(c.colorize_line("y and x"), "\x1b[38;5;1my and x\x1b[0m");
    assert_eq!(c.colorize_line("only y"), "\x1b[38;5;2monly y\x1b[0m");
}

#[test]
fn line_rule_stops_word_rules() {
    let c = Colorizer::new(
        theme(Some(7), vec![rule("boom", Color::Xterm256(2))], vec![rule("error", Color::Xterm256(1))]),
        false,
    );
    assert_eq!(c.colorize_line("error: boom"), "\x1b[38;5;2merror: boom\x1b[0m");
}

#[test]
fn word_rule_without_base() {
    let c = Colorizer::new(theme(None, vec![], vec![rule("error", Color::Xterm256(1))]), false);
    assert_eq!(c.colorize_line("an error here"), "an \x1b[38;5;1merror\x1b[39m here");
}

#[test]
fn word_rule_with_base() {
    let c = Colorizer::new(theme(Some(7), vec![], vec![rule("error", Color::Xterm256(1))]), false);
    assert_eq!(
        c.colorize_line("an error here"),
        "\x1b[38;5;7man \x1b[38;5;1merror\x1b[38;5;7m here\x1b[0m"
    );
}

#[test]
fn word_rules_apply_in_order() {
    let c = Colorizer::new(
        theme(None, vec![], vec![rule("a", Color::Xterm256(1)), rule("b", Color::Xterm256(2))]),
        false,
    );
    assert_eq!(
        c.colorize_line("a b"),
        "\x1b[38;5;1ma\x1b[39m \x1b[38;5;2mb\x1b[39m"
    );
}

#[test]
fn word_match_inside_styled_span_is_skipped() {
    let c = Colorizer::new(theme(None, vec![], vec![rule("error", Color::Xterm256(1))]), false);
    assert_eq!(
        c.colorize_line("\x1b[31merror\x1b[0m and error"),
        "\x1b[31merror\x1b[0m and \x1b[38;5;1merror\x1b[39m"
    );
}

#[test]
fn no_color_returns_line() {
    let c = Colorizer::new(theme(Some(7), vec![rule("x", Color::Xterm256(1))], vec![]), true);
    assert_eq!(c.colorize_line("x marks"), "x marks");
}

#[test]
fn styled_span_detection() {
    let c = Colorizer::new(theme(None, vec![], vec![]), false);
    let text = "\x1b[31mred\x1b[0m plain";
    assert!(c.is_inside_ansi_sequence(text, 2));
    assert!(c.is_inside_ansi_sequence(text, 6));
    assert!(!c.is_inside_ansi_sequence(text, 13));
    assert_eq!(c.theme_name(), "test");
    assert_eq!(c.get_theme().word_rules.len(), 0);
}
