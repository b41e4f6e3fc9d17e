use fuzzytail::config::{join_path, Config};
use fuzzytail::lines::split_lines;
use fuzzytail::output::{csv_escape, format_csv_line, LogParser, OutputFormat, OutputFormatter};
use fuzzytail::theme::{Color, Theme};
use fuzzytail::theme_file::{RuleFault, ThemeError};

#[test]
fn format_names() {
    assert_eq!(OutputFormat::from_string("JSON"), OutputFormat::Json);
    assert_eq!(OutputFormat::from_string("Csv"), OutputFormat::Csv);
    assert_eq!(OutputFormat::from_string("text"), OutputFormat::Text);
    assert_eq!(OutputFormat::from_string("xml"), OutputFormat::Text);
}

#[test]
fn csv_fields() {
    assert_eq!(csv_escape("plain"), "plain");
    assert_eq!(csv_escape("a,b"), "\"a,b\"");
    assert_eq!(csv_escape("say \"hi\""), "\"say \"\"hi\"\"\"");
    assert_eq!(csv_escape("two\nlines"), "\"two\nlines\"");
    assert_eq!(csv_escape(""), "");
}

const LINE: &str = "2024-01-02 10:11:12 ERROR nginx 192.168.1.1 returned 404";

#[test]
fn log_fields() {
    let p = LogParser::new().parse_line(LINE);
    assert_eq!(p.timestamp.as_deref(), Some("2024-01-02 10:11:12"));
    assert_eq!(p.level.as_deref(), Some("ERROR"));
    assert_eq!(p.service.as_deref(), Some("nginx"));
    assert_eq!(p.ip.as_deref(), Some("192.168.1.1"));
    assert_eq!(p.status_code.as_deref(), Some("404"));
    assert_eq!(p.message, LINE);
    assert_eq!(p.raw, LINE);
    let q = LogParser::new().parse_line("nothing, here");
    assert!(q.timestamp.is_none() && q.level.is_none() && q.ip.is_none());
    assert_eq!(format_csv_line(&q), ",,,\"nothing, here\",,");
}

#[test]
fn csv_output_has_header_once() {
    let mut f = OutputFormatter::new(OutputFormat::Csv);
    let first = f.format_line(LINE, "colored").unwrap();
    assert_eq!(
        first,
        format!("timestamp,level,service,message,ip,status_code\n2024-01-02 10:11:12,ERROR,nginx,{},192.168.1.1,404", LINE)
    );
    let second = f.format_line("x", "x").unwrap();
    assert_eq!(second, ",,,x,,");
}

#[test]
fn text_and_json_output() {
    let mut t = OutputFormatter::new(OutputFormat::Text);
    assert_eq!(t.format_line("raw", "colored").unwrap(), "colored");
    let mut j = OutputFormatter::new(OutputFormat::Json);
    assert!(j.format_line("raw", "colored").is_none());
    assert_eq!(j.format(), OutputFormat::Json);
}

#[test]
fn line_splitting() {
    assert_eq!(split_lines("a\nb\r\n\nc"), vec!["a", "b", "", "c"]);
    assert_eq!(split_lines("a\n"), vec!["a"]);
    assert_eq!(split_lines(""), Vec::<String>::new());
    assert_eq!(split_lines("x\r\r\n"), vec!["x"]);
    assert_eq!(split_lines("partial"), vec!["partial"]);
}

#[test]
fn paths() {
    assert_eq!(join_path("a/", "b"), "a/b");
    assert_eq!(join_path("a", "b"), "a/b");
    assert_eq!(join_path("", "b"), "b");
    assert_eq!(join_path("a", "/b"), "/b");
    let c = Config::with_config_dir(Some("/home/u/.config".to_string()));
    assert_eq!(c.general.theme, "catppuccin");
    assert_eq!(c.general.buffer_size, Some(8192));
    assert_eq!(c.themes.user_path, "/home/u/.config/fuzzytail/themes");
    assert_eq!(c.themes.builtin_path, "/etc/fuzzytail/themes");
    assert_eq!(Config::with_config_dir(None).themes.user_path, "~/.config/fuzzytail/themes");
    assert_eq!(Config::default_config_path("/c"), "/c/fuzzytail/config.toml");
    assert_eq!(
        c.get_theme_path("dracula", false, true),
        Some("/etc/fuzzytail/themes/ft.conf.dracula".to_string())
    );
    assert_eq!(
        c.get_theme_path("dracula", true, true),
        Some("/home/u/.config/fuzzytail/themes/ft.conf.dracula".to_string())
    );
    assert_eq!(c.get_theme_path("dracula", false, false), None);
}

#[test]
fn theme_file_settings() {
    let text = "# comment\n  base: 7 \nstatusbar_bg: #102030\nstatusbar_fg: 15\nline: FATAL = 196\nword: err=or = #ff0000\nbogus\n\n";
    let t = Theme::parse_theme_contents(text, "mine".to_string()).unwrap();
    assert_eq!(t.name, "mine");
    assert_eq!(t.base_color, Some(7));
    assert_eq!(t.statusbar_bg, Some(Color::TrueColor { r: 16, g: 32, b: 48 }));
    assert_eq!(t.statusbar_fg, Some(Color::Xterm256(15)));
    assert_eq!(t.line_rules.len(), 1);
    assert_eq!(t.line_rules[0].pattern.source(), "FATAL");
    assert_eq!(t.line_rules[0].color, Color::Xterm256(196));
    assert_eq!(t.word_rules[0].pattern.source(), "err=or");
    assert_eq!(t.word_rules[0].color, Color::TrueColor { r: 255, g: 0, b: 0 });
}

#[test]
fn theme_file_ignores_bad_optional_values() {
    let t = Theme::parse_theme_contents("base: 300\nstatusbar_bg: #12\n", "x".to_string()).unwrap();
    assert_eq!(t.base_color, None);
    assert_eq!(t.statusbar_bg, None);
    let u = Theme::parse_theme_contents("base: +12\n", "x".to_string()).unwrap();
    assert_eq!(u.base_color, Some(12));
}

#[test]
fn theme_file_errors() {
    assert_eq!(
        Theme::parse_theme_contents("# x\nline: foo\n", "x".to_string()).unwrap_err(),
        ThemeError { line: 2, line_rule: true, fault: RuleFault::MissingEquals }
    );
    assert_eq!(
        Theme::parse_theme_contents("word: ( = 1", "x".to_string()).unwrap_err(),
        ThemeError { line: 1, line_rule: false, fault: RuleFault::InvalidPattern }
    );
    assert_eq!(
        Theme::parse_theme_contents("line: x = 300", "x".to_string()).unwrap_err(),
        ThemeError { line: 1, line_rule: true, fault: RuleFault::InvalidColor }
    );
    assert_eq!(
        Theme::parse_theme_contents("line: x = #gg0000", "x".to_string()).unwrap_err(),
        ThemeError { line: 1, line_rule: true, fault: RuleFault::InvalidColor }
    );
}
