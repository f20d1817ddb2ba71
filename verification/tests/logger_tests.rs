use lol_plugin::logger::{error, goes_to_stderr, info, init, log_path, warn, write_line, LogLevel, LogSlot};

#[test]
fn log_lines() {
    assert_eq!(info(1700000000000, "lol_plugin start"), "[1700000000000] INFO lol_plugin start\n");
    assert_eq!(warn(5, "w"), "[5] WARN w\n");
    assert_eq!(error(0, ""), "[0] ERROR \n");
    assert_eq!(write_line(LogLevel::Info, 12, "x"), info(12, "x"));
    assert_eq!(
        info(u128::MAX, "m"),
        format!("[{}] INFO m\n", u128::MAX)
    );
}

#[test]
fn console_routing() {
    assert!(goes_to_stderr(&LogLevel::Error));
    assert!(!goes_to_stderr(&LogLevel::Warn));
    assert!(!goes_to_stderr(&LogLevel::Info));
}

#[test]
fn init_happens_once() {
    let mut slot = LogSlot::new();
    assert_eq!(log_path(&slot), None);
    init(&mut slot, "C:\\a\\lol_plugin.log".to_string());
    assert_eq!(log_path(&slot), Some("C:\\a\\lol_plugin.log".to_string()));
    init(&mut slot, "C:\\b\\lol_plugin.log".to_string());
    assert_eq!(log_path(&slot), Some("C:\\a\\lol_plugin.log".to_string()));
}
