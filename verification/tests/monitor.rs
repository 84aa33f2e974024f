use clipcat::clip::ClipboardKind;
use clipcat::monitor::{ClipboardMonitor, ClipboardMonitorOptions, MonitorError, MonitorState};

fn options(clipboard: bool, primary: bool, min: usize) -> ClipboardMonitorOptions {
    ClipboardMonitorOptions {
        load_current: true,
        enable_clipboard: clipboard,
        enable_primary: primary,
        filter_min_size: min,
    }
}

#[test]
fn monitor_starts_as_configured() {
    let monitor = ClipboardMonitor::new(options(true, false, 0));
    assert!(monitor.is_enabled(ClipboardKind::Clipboard));
    assert!(!monitor.is_enabled(ClipboardKind::Primary));
    assert_eq!(monitor.state(ClipboardKind::Clipboard), MonitorState::Enabled);
    assert_eq!(monitor.state(ClipboardKind::Primary), MonitorState::Disabled);
}

#[test]
fn short_payloads_are_dropped() {
    let mut monitor = ClipboardMonitor::new(options(true, true, 3));
    assert!(!monitor.observe(ClipboardKind::Clipboard, b""));
    assert!(!monitor.observe(ClipboardKind::Clipboard, b"ab"));
    assert!(monitor.observe(ClipboardKind::Clipboard, b"abc"));
    assert!(monitor.observe(ClipboardKind::Primary, b"abcd"));
    assert!(!monitor.observe(ClipboardKind::Primary, b"a"));
}

#[test]
fn zero_minimum_lets_everything_through() {
    let mut monitor = ClipboardMonitor::new(options(true, true, 0));
    assert!(monitor.observe(ClipboardKind::Clipboard, b"a"));
    assert!(monitor.observe(ClipboardKind::Clipboard, b""));
}

#[test]
fn disabled_selection_is_silent() {
    let mut monitor = ClipboardMonitor::new(options(true, false, 0));
    assert!(!monitor.observe(ClipboardKind::Primary, b"text"));
    assert_eq!(monitor.publish(ClipboardKind::Primary, b"text"), Err(MonitorError::Disabled));
    monitor.enable(ClipboardKind::Primary);
    assert!(monitor.observe(ClipboardKind::Primary, b"text"));
    assert_eq!(monitor.publish(ClipboardKind::Primary, b"text"), Ok(()));
    monitor.disable(ClipboardKind::Primary);
    assert_eq!(monitor.state(ClipboardKind::Primary), MonitorState::Disabled);
    assert!(!monitor.observe(ClipboardKind::Primary, b"other"));
    assert!(monitor.is_enabled(ClipboardKind::Clipboard));
}

#[test]
fn own_write_does_not_come_back() {
    let mut monitor = ClipboardMonitor::new(options(true, true, 0));
    assert_eq!(monitor.publish(ClipboardKind::Primary, b"mine"), Ok(()));
    assert!(!monitor.observe(ClipboardKind::Primary, b"mine"));
    assert!(monitor.observe(ClipboardKind::Primary, b"mine"));
}

#[test]
fn echo_is_awaited_on_its_own_selection_only() {
    let mut monitor = ClipboardMonitor::new(options(true, true, 0));
    assert_eq!(monitor.publish(ClipboardKind::Primary, b"mine"), Ok(()));
    assert!(monitor.observe(ClipboardKind::Clipboard, b"mine"));
    assert!(!monitor.observe(ClipboardKind::Primary, b"mine"));
}

#[test]
fn another_change_ends_the_wait_for_an_echo() {
    let mut monitor = ClipboardMonitor::new(options(true, true, 0));
    assert_eq!(monitor.publish(ClipboardKind::Clipboard, b"mine"), Ok(()));
    assert!(monitor.observe(ClipboardKind::Clipboard, b"theirs"));
    assert!(monitor.observe(ClipboardKind::Clipboard, b"mine"));
}

#[test]
fn disabling_forgets_the_echo() {
    let mut monitor = ClipboardMonitor::new(options(true, true, 0));
    assert_eq!(monitor.publish(ClipboardKind::Clipboard, b"mine"), Ok(()));
    monitor.disable(ClipboardKind::Clipboard);
    monitor.enable(ClipboardKind::Clipboard);
    assert!(monitor.observe(ClipboardKind::Clipboard, b"mine"));
}

#[test]
fn startup_reads_the_enabled_selections() {
    let both = ClipboardMonitor::new(options(true, true, 0));
    assert_eq!(both.initial_selections(), vec![ClipboardKind::Clipboard, ClipboardKind::Primary]);
    let primary = ClipboardMonitor::new(options(false, true, 0));
    assert_eq!(primary.initial_selections(), vec![ClipboardKind::Primary]);
    let mut quiet = options(true, true, 0);
    quiet.load_current = false;
    assert_eq!(ClipboardMonitor::new(quiet).initial_selections(), vec![]);
}
