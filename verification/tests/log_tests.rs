use cmdash::log::{Log, LogLevel};

#[test]
fn append_mirrors_raw_bytes_and_adds_one_entry_per_line() {
    // A two-line message appended with a disk mirror configured: the ring
    // gains two entries, and the mirror receives the literal message bytes,
    // in that order, regardless of styling.
    console::set_colors_enabled(false);
    console::set_colors_enabled_stderr(false);
    let mut log = Log::new("Main").with_disk_log("/tmp/mirror");
    let payload = log.mirror_payload("hello\nworld");
    assert_eq!(payload.as_deref(), Some(b"hello\nworld".as_slice()));
    log.append("hello\nworld", LogLevel::Info);
    let recent = log.recent_lines(3);
    assert_eq!(recent[0].as_str(), "         world");
    assert_eq!(recent[1].as_str(), "   INFO: hello");
    assert_eq!(recent[2].as_str(), "");
}

#[test]
fn unmirrored_log_has_no_payload() {
    let log = Log::new("Main");
    assert!(log.mirror_payload("x").is_none());
    assert!(log.disk_log_dir().is_none());
}

#[test]
fn name_returns_the_title() {
    let log = Log::new("Server Thread");
    assert_eq!(log.name(), "Server Thread");
}

#[test]
fn levels_use_their_prefixes() {
    console::set_colors_enabled(false);
    console::set_colors_enabled_stderr(false);
    let mut log = Log::new("T");
    log.log("a");
    log.log_warn("b");
    log.log_err("c");
    log.log_success("d");
    let recent = log.recent_lines(4);
    assert_eq!(recent[0].as_str(), "SUCCESS: d");
    assert_eq!(recent[1].as_str(), "  ERROR: c");
    assert_eq!(recent[2].as_str(), "   WARN: b");
    assert_eq!(recent[3].as_str(), "   INFO: a");
}

#[test]
fn tabs_become_two_spaces() {
    console::set_colors_enabled(false);
    console::set_colors_enabled_stderr(false);
    let mut log = Log::new("T");
    log.log("a\tb");
    let recent = log.recent_lines(1);
    assert_eq!(recent[0].as_str(), "   INFO: a  b");
}

#[test]
fn empty_message_appends_nothing() {
    console::set_colors_enabled(false);
    console::set_colors_enabled_stderr(false);
    let mut log = Log::new("T");
    log.log("");
    let recent = log.recent_lines(1);
    assert_eq!(recent[0].as_str(), "");
}

#[test]
fn trailing_newline_adds_a_single_line() {
    console::set_colors_enabled(false);
    console::set_colors_enabled_stderr(false);
    let mut log = Log::new("T");
    log.log("one\n");
    let recent = log.recent_lines(2);
    assert_eq!(recent[0].as_str(), "   INFO: one");
    assert_eq!(recent[1].as_str(), "");
}
