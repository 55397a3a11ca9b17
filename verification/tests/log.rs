use surf::log::{format_entry, log_debug, log_error, log_info, log_line, log_warn, LogLevel};

#[test]
fn level_words() {
    assert_eq!(LogLevel::Info.as_str(), "INFO");
    assert_eq!(LogLevel::Warn.as_str(), "WARN");
    assert_eq!(LogLevel::Error.as_str(), "ERROR");
    assert_eq!(LogLevel::Debug.as_str(), "DEBUG");
}

#[test]
fn log_lines() {
    let ts = "2024-01-02 03:04:05.678";
    assert_eq!(log_info(ts, "started"), "[2024-01-02 03:04:05.678] [INFO] started\n");
    assert_eq!(log_warn(ts, "hm"), "[2024-01-02 03:04:05.678] [WARN] hm\n");
    assert_eq!(log_error(ts, "bad"), "[2024-01-02 03:04:05.678] [ERROR] bad\n");
    assert_eq!(log_debug(ts, ""), "[2024-01-02 03:04:05.678] [DEBUG] \n");
    assert_eq!(log_line("", LogLevel::Info, "x"), "[] [INFO] x\n");
}

#[test]
fn nothing_is_logged_while_logging_is_off() {
    assert_eq!(format_entry(false, "t", LogLevel::Error, "m"), None);
    assert_eq!(format_entry(true, "t", LogLevel::Error, "m"), Some("[t] [ERROR] m\n".to_string()));
}
