use fuzzytail::ansi::{highlight_matches, highlight_ranges, pad_to_width};
use fuzzytail::pattern::Pattern;

/// Visible columns of `s`: escape sequences (ESC up to the first ASCII
/// letter) and control characters take none.
fn visible(s: &str) -> usize {
    let mut n = 0;
    let mut esc = false;
    for c in s.chars() {
        if esc {
            esc = !c.is_ascii_alphabetic();
        } else if c == '\x1b' {
            esc = true;
        } else if !c.is_control() {
            n += 1;
        }
    }
    n
}

#[test]
fn pad_short_line_fills_with_spaces() {
    assert_eq!(pad_to_width("abc", 5), "abc\x1b[0m  ");
}

#[test]
fn pad_long_line_is_cut() {
    assert_eq!(pad_to_width("abcdef", 3), "abc\x1b[0m");
}

#[test]
fn pad_keeps_escape_sequences_uncounted() {
    assert_eq!(pad_to_width("\x1b[31mab\x1b[0mcd", 3), "\x1b[31mab\x1b[0mc\x1b[0m");
}

#[test]
fn pad_tab_moves_to_next_stop() {
    assert_eq!(pad_to_width("a\tb", 6), "a   b\x1b[0m ");
}

#[test]
fn pad_tab_never_passes_width() {
    assert_eq!(pad_to_width("ab\tc", 3), "ab \x1b[0m");
}

#[test]
fn pad_drops_control_characters() {
    assert_eq!(pad_to_width("a\x07b\r", 3), "ab\x1b[0m ");
}

#[test]
fn pad_zero_width() {
    assert_eq!(pad_to_width("abc", 0), "\x1b[0m");
    assert_eq!(pad_to_width("", 0), "\x1b[0m");
}

#[test]
fn pad_unterminated_escape_passes_through() {
    assert_eq!(pad_to_width("a\x1b[3", 2), "a\x1b[3\x1b[0m ");
}

#[test]
fn pad_output_has_exact_visible_width() {
    let inputs = [
        "",
        "plain text",
        "\x1b[38;5;196mred\x1b[0m and more text here",
        "tabs\tand\tcontrols\x01\x02",
        "\x1b[1m\x1b[4m",
        "héllo wörld ünïcode",
        "\x1b[31",
    ];
    for s in inputs.iter() {
        for w in 0..25usize {
            let out = pad_to_width(s, w);
            assert_eq!(visible(&out), w, "input {:?} width {}", s, w);
        }
    }
}

#[test]
fn highlight_search_inside_colored_line() {
    let p = Pattern::compile("error").unwrap();
    let styled = "\x1b[38;5;1merror: boom\x1b[0m";
    assert_eq!(
        highlight_matches(styled, "error: boom", &p),
        "\x1b[38;5;1m\x1b[7merror\x1b[27m: boom\x1b[0m"
    );
}

#[test]
fn highlight_search_with_word_color() {
    let p = Pattern::compile("error").unwrap();
    let styled = "\x1b[38;5;7m\x1b[38;5;1merror\x1b[38;5;7m: boom\x1b[0m";
    assert_eq!(
        highlight_matches(styled, "error: boom", &p),
        "\x1b[38;5;7m\x1b[38;5;1m\x1b[7merror\x1b[38;5;7m\x1b[27m: boom\x1b[0m"
    );
}

#[test]
fn highlight_plain_line() {
    let p = Pattern::compile("error").unwrap();
    assert_eq!(highlight_matches("error: boom", "error: boom", &p), "\x1b[7merror\x1b[27m: boom");
}

#[test]
fn highlight_every_match() {
    let p = Pattern::compile("err").unwrap();
    assert_eq!(
        highlight_matches("err x err", "err x err", &p),
        "\x1b[7merr\x1b[27m x \x1b[7merr\x1b[27m"
    );
}

#[test]
fn highlight_after_multibyte_characters() {
    let p = Pattern::compile("error").unwrap();
    assert_eq!(highlight_matches("é error", "é error", &p), "é \x1b[7merror\x1b[27m");
}

#[test]
fn highlight_without_match_changes_nothing() {
    let p = Pattern::compile("zzz").unwrap();
    assert_eq!(highlight_matches("\x1b[31mabc\x1b[0m", "abc", &p), "\x1b[31mabc\x1b[0m");
}

#[test]
fn highlight_given_ranges() {
    assert_eq!(highlight_ranges("abcdef", &vec![(1, 3)]), "a\x1b[7mbc\x1b[27mdef");
    assert_eq!(highlight_ranges("abc", &vec![]), "abc");
}

#[test]
fn pattern_compile_errors() {
    assert!(Pattern::compile("(").is_err());
    assert_eq!(Pattern::compile("a+").unwrap().source(), "a+");
}
