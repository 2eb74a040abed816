use delve::log::{
    format_log_line, DelveLogger, Level, DEFAULT_AUTOFLUSH_SIZE, DEFAULT_LOG_NAME, TARGET_ENV_VAR_NAME,
};

#[test]
fn constants() {
    assert_eq!(DEFAULT_LOG_NAME, "delve.log");
    assert_eq!(TARGET_ENV_VAR_NAME, "DLV_LOG_TARGETS");
    assert_eq!(DEFAULT_AUTOFLUSH_SIZE, 1024);
}

#[test]
fn targets_split_at_commas() {
    assert_eq!(DelveLogger::init_targets(Some("main,render")), vec!["main".to_string(), "render".to_string()]);
    assert_eq!(DelveLogger::init_targets(Some("")), vec![String::new()]);
    assert_eq!(DelveLogger::init_targets(Some("a,,b,")), vec!["a".to_string(), String::new(), "b".to_string(), String::new()]);
    assert_eq!(DelveLogger::init_targets(None), Vec::<String>::new());
    assert_eq!(DelveLogger::init_targets(Some("ünï,cödé")), vec!["ünï".to_string(), "cödé".to_string()]);
}

#[test]
fn split_matches_std() {
    for v in ["x", ",", "a,b,c", ",,", "main"] {
        let expected: Vec<String> = v.split(",").map(String::from).collect();
        assert_eq!(DelveLogger::init_targets(Some(v)), expected);
    }
}

#[test]
fn init_is_idempotent() {
    let mut l = DelveLogger::new(Level::Info, true, 1024);
    assert!(!l.has_targets());
    assert_eq!(l.location(), None);
    l.init("first.log".to_string(), Some("main"));
    assert!(l.has_targets());
    assert_eq!(l.location(), Some("first.log".to_string()));
    l.init("second.log".to_string(), Some("render"));
    assert_eq!(l.location(), Some("first.log".to_string()));
    assert!(l.enabled(Level::Info, "main", None));
    assert!(!l.enabled(Level::Info, "render", None));
}

#[test]
fn filter_by_level_and_target() {
    let mut l = DelveLogger::new(Level::Info, true, 1024);
    l.init("x.log".to_string(), Some("main,engine"));
    assert!(l.enabled(Level::Info, "", None));
    assert!(l.enabled(Level::Debug, "main", None));
    assert!(l.enabled(Level::Trace, "engine", None));
    assert!(!l.enabled(Level::Debug, "render", None));
    // records before the logger's level in Error < Warn < Info < Debug < Trace are dropped
    assert!(!l.enabled(Level::Error, "", None));
    assert!(!l.enabled(Level::Warn, "main", None));
}

#[test]
fn targets_are_looked_up_on_first_use() {
    let mut l = DelveLogger::new(Level::Trace, false, 10);
    assert!(!l.has_targets());
    assert!(l.enabled(Level::Trace, "main", Some("main,render")));
    assert!(l.has_targets());
    // looked up once: later values of the variable are not used
    assert!(!l.enabled(Level::Trace, "other", Some("other")));
    assert!(l.enabled(Level::Trace, "render", None));

    let mut unset = DelveLogger::new(Level::Trace, false, 10);
    assert!(unset.enabled(Level::Trace, "", None));
    // a record without a target needs no targets
    assert!(!unset.has_targets());
    assert!(!unset.enabled(Level::Trace, "main", None));
    assert!(unset.has_targets());
}

#[test]
fn records_dropped_by_level_look_nothing_up() {
    let mut l = DelveLogger::new(Level::Info, false, 10);
    assert!(!l.enabled(Level::Warn, "main", Some("main")));
    assert!(!l.has_targets());
    assert!(l.enabled(Level::Debug, "main", Some("main")));
    assert!(l.has_targets());
}

#[test]
fn ensure_targets_only_once() {
    let mut l = DelveLogger::new(Level::Error, false, 10);
    l.ensure_targets(Some("a"));
    l.ensure_targets(Some("b"));
    assert!(l.enabled(Level::Error, "a", None));
    assert!(!l.enabled(Level::Error, "b", None));
}

#[test]
fn buffer_flushes_at_size() {
    let mut l = DelveLogger::new(Level::Info, true, 10);
    assert!(!l.append_line("12345"));
    assert!(!l.append_line("6789"));
    assert!(l.append_line("0"));
    assert_eq!(l.take_buffer(), "1234567890");
    assert_eq!(l.take_buffer(), "");
    // size is counted in bytes
    assert!(!l.append_line("ééééé"[..8].as_ref()));
    assert!(l.append_line("é"));
}

#[test]
fn no_autoflush_when_disabled() {
    let mut l = DelveLogger::new(Level::Info, false, 1);
    assert!(!l.append_line("a long line"));
    assert_eq!(l.take_buffer(), "a long line");
}

#[test]
fn split_then_join_gives_back_the_value() {
    for v in ["", "a", "main,render", ",x,,y,", "ü,ß"] {
        let pieces = DelveLogger::init_targets(Some(v));
        assert_eq!(pieces.join(","), v);
        assert!(pieces.iter().all(|p| !p.contains(',')));
        assert_eq!(pieces.len(), v.matches(',').count() + 1);
    }
}

#[test]
fn log_lines_have_time_thread_level_and_message() {
    assert_eq!(
        format_log_line("2024-01-02 03:04:05.000006", 0, Level::Info, "hello"),
        "[2024-01-02 03:04:05.000006]-(thread 0)-<INFO> hello\n"
    );
    assert_eq!(
        format_log_line("t", 12345, Level::Error, "boom"),
        "[t]-(thread 12345)-<ERROR> boom\n"
    );
    assert_eq!(format_log_line("", 10, Level::Warn, ""), "[]-(thread 10)-<WARN> \n");
    assert_eq!(format_log_line("t", 9, Level::Debug, "a b"), "[t]-(thread 9)-<DEBUG> a b\n");
    assert_eq!(format_log_line("t", 100, Level::Trace, "x"), "[t]-(thread 100)-<TRACE> x\n");
}

#[test]
fn level_names() {
    assert_eq!(Level::Error.as_str(), "ERROR");
    assert_eq!(Level::Warn.as_str(), "WARN");
    assert_eq!(Level::Info.as_str(), "INFO");
    assert_eq!(Level::Debug.as_str(), "DEBUG");
    assert_eq!(Level::Trace.as_str(), "TRACE");
}
