use rogger::json::JsonValue;
use rogger::logger::{Logger, LogLevel};
use rogger::memory_writer::{FailingWriter, MemoryWriter};
use rogger::writer::IoError;

fn pair(k: &str, v: &str) -> (String, JsonValue) {
    (k.to_string(), JsonValue::Str(v.to_string()))
}

#[test]
fn test_logger() {
    let writer = MemoryWriter::new();
    let mut logger = Logger::init(LogLevel::Info, "test_service".to_string(), writer);

    // Log info level
    logger.info("info message", JsonValue::Obj(vec![pair("key", "value")])).unwrap();

    // Log debug (should be filtered)
    logger.debug("debug message", JsonValue::Obj(vec![])).unwrap();

    // Check logs
    let logs = &logger.sink.lines;
    assert_eq!(logs.len(), 1);
    let parsed: serde_json::Value = serde_json::from_str(&logs[0]).unwrap();
    assert_eq!(parsed["service_name"], "test_service");
    assert_eq!(parsed["level"], "info");
    assert_eq!(parsed["message"], "info message");
    assert_eq!(parsed["payload"]["key"], "value");
}

#[test]
fn test_level_filtering() {
    let mut logger = Logger::init(LogLevel::Warn, "svc".to_string(), MemoryWriter::new());
    logger.debug("d", JsonValue::Null).unwrap();
    logger.info("i", JsonValue::Null).unwrap();
    assert_eq!(logger.sink.lines.len(), 0);
    logger.warn("w", JsonValue::Null).unwrap();
    logger.error("e", JsonValue::Null).unwrap();
    assert_eq!(logger.sink.lines.len(), 2);
    let first: serde_json::Value = serde_json::from_str(&logger.sink.lines[0]).unwrap();
    let second: serde_json::Value = serde_json::from_str(&logger.sink.lines[1]).unwrap();
    assert_eq!(first["level"], "warn");
    assert_eq!(second["level"], "error");
}

#[test]
fn test_logger_sink_failure() {
    let mut logger = Logger::init(
        LogLevel::Info,
        "svc".to_string(),
        FailingWriter::new(IoError::StreamBroken),
    );
    // Below the minimum level the sink is never touched, so no error.
    assert_eq!(logger.debug("d", JsonValue::Null), Ok(()));
    // At or above it, the sink's failure is returned.
    assert_eq!(logger.info("i", JsonValue::Null), Err(IoError::StreamBroken));
}
