use rust_route::logger::{time_of_day, LogLevel, LogRecord, Logger};

#[test]
fn level_names() {
    assert_eq!(LogLevel::Trace.to_string(), "TRACE");
    assert_eq!(LogLevel::Debug.to_string(), "DEBUG");
    assert_eq!(LogLevel::Info.to_string(), "INFO");
    assert_eq!(LogLevel::Warn.to_string(), "WARN");
    assert_eq!(LogLevel::Error.to_string(), "ERROR");
}

#[test]
fn level_colors() {
    assert_eq!(LogLevel::Trace.color_code(), "\x1b[35m");
    assert_eq!(LogLevel::Debug.color_code(), "\x1b[34m");
    assert_eq!(LogLevel::Info.color_code(), "\x1b[32m");
    assert_eq!(LogLevel::Warn.color_code(), "\x1b[33m");
    assert_eq!(LogLevel::Error.color_code(), "\x1b[31m");
}

#[test]
fn levels_are_ordered() {
    assert!(LogLevel::Trace.rank() < LogLevel::Debug.rank());
    assert!(LogLevel::Debug.rank() < LogLevel::Info.rank());
    assert!(LogLevel::Info.rank() < LogLevel::Warn.rank());
    assert!(LogLevel::Warn.rank() < LogLevel::Error.rank());
}

#[test]
fn logger_filters_below_its_level() {
    let logger = Logger::new(LogLevel::Info);
    assert_eq!(logger.trace("t"), None);
    assert_eq!(logger.debug("d"), None);
    assert_eq!(
        logger.info("i"),
        Some(LogRecord { level: LogLevel::Info, message: "i".to_string() })
    );
    assert_eq!(
        logger.warn("w"),
        Some(LogRecord { level: LogLevel::Warn, message: "w".to_string() })
    );
    assert_eq!(
        logger.error("e"),
        Some(LogRecord { level: LogLevel::Error, message: "e".to_string() })
    );
}

#[test]
fn trace_logger_passes_everything() {
    let logger = Logger::new(LogLevel::Trace);
    assert_eq!(
        logger.trace("deep"),
        Some(LogRecord { level: LogLevel::Trace, message: "deep".to_string() })
    );
    assert!(logger.enabled(LogLevel::Debug));
}

#[test]
fn error_logger_passes_only_errors() {
    let logger = Logger::new(LogLevel::Error);
    assert_eq!(logger.warn("w"), None);
    assert!(logger.error("e").is_some());
}

#[test]
fn clock_time_of_day() {
    assert_eq!(time_of_day(0), (0, 0, 0));
    assert_eq!(time_of_day(3661), (1, 1, 1));
    assert_eq!(time_of_day(86399), (23, 59, 59));
    assert_eq!(time_of_day(86400 * 3 + 45296), (12, 34, 56));
}
