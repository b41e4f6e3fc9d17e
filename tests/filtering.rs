use fuzzytail::filter::{FilterError, LineFilter, LogLevel};

#[test]
fn error_threshold_shows_error_and_worse() {
    let f = LineFilter::new(None, None, Some("error".to_string())).unwrap();
    assert!(f.should_show_line("EMERG kernel panic"));
    assert!(f.should_show_line("alert: raid degraded"));
    assert!(f.should_show_line("CRITICAL temperature"));
    assert!(f.should_show_line("something error here"));
    assert!(!f.should_show_line("warning: disk 80%"));
    assert!(!f.should_show_line("notice: login"));
    assert!(!f.should_show_line("info: started"));
    assert!(!f.should_show_line("debug: x=1"));
    assert!(!f.should_show_line("hello world"));
}

#[test]
fn info_threshold_shows_lines_without_level() {
    let f = LineFilter::new(None, None, Some("INFO".to_string())).unwrap();
    assert!(f.should_show_line("hello world"));
    assert!(f.should_show_line("info: started"));
    assert!(!f.should_show_line("debug: x=1"));
}

#[test]
fn level_names() {
    assert_eq!(LogLevel::from_str("warn"), Some(LogLevel::Warning));
    assert_eq!(LogLevel::from_str("Emergency"), Some(LogLevel::Emergency));
    assert_eq!(LogLevel::from_str("trace"), Some(LogLevel::Debug));
    assert_eq!(LogLevel::from_str("ERR"), Some(LogLevel::Error));
    assert_eq!(LogLevel::from_str("loud"), None);
    assert_eq!(LogLevel::Emergency.priority(), 0);
    assert_eq!(LogLevel::Debug.priority(), 7);
}

#[test]
fn level_detection() {
    assert_eq!(LineFilter::detect_log_level("Something Failed with Err"), Some(LogLevel::Error));
    assert_eq!(LineFilter::detect_log_level("all quiet"), None);
    assert_eq!(LineFilter::detect_log_level("WARN and ALERT"), Some(LogLevel::Alert));
}

#[test]
fn keep_and_skip_patterns() {
    let f = LineFilter::new(Some("nginx".to_string()), Some("health".to_string()), None).unwrap();
    assert!(f.should_show_line("nginx GET /"));
    assert!(!f.should_show_line("nginx GET /health"));
    assert!(!f.should_show_line("mysql query"));
    assert!(f.is_active());
    assert!(!LineFilter::new(None, None, None).unwrap().is_active());
}

#[test]
fn filter_errors() {
    assert!(matches!(LineFilter::new(Some("(".to_string()), None, None), Err(FilterError::InvalidKeep(_))));
    assert!(matches!(LineFilter::new(None, Some("[".to_string()), None), Err(FilterError::InvalidSkip(_))));
    assert!(matches!(
        LineFilter::new(None, None, Some("loud".to_string())),
        Err(FilterError::InvalidLevel(_))
    ));
    assert!(matches!(
        LineFilter::new(Some("(".to_string()), None, Some("loud".to_string())),
        Err(FilterError::InvalidKeep(_))
    ));
}

#[test]
fn last_shown_lines() {
    let f = LineFilter::new(Some("keep".to_string()), None, None).unwrap();
    let lines: Vec<String> = ["keep 1", "x", "keep 2", "keep 3", "y"].iter().map(|s| s.to_string()).collect();
    assert_eq!(f.last_shown(&lines, 2), vec!["keep 2", "keep 3"]);
    assert_eq!(f.last_shown(&lines, 10), vec!["keep 1", "keep 2", "keep 3"]);
    assert!(f.last_shown(&lines, 0).is_empty());
}
