use woodpecker::levels::{LogLevel, LEVELS};

#[test]
fn test_text_round_trip() {
    for l in LEVELS {
        assert_eq!(Some(l), LogLevel::from_text(l.to_text()));
    }
}

#[test]
fn test_numeric_round_trip() {
    for l in LEVELS {
        assert_eq!(l, LogLevel::from_numeric(l.to_numeric()));
    }
}

#[test]
fn test_numeric_codec() {
    assert_eq!(-30, LogLevel::TRACE.to_numeric());
    assert_eq!(-20, LogLevel::DEBUG.to_numeric());
    assert_eq!(-10, LogLevel::VERBOSE.to_numeric());
    assert_eq!(0, LogLevel::INFO.to_numeric());
    assert_eq!(10, LogLevel::NOTICE.to_numeric());
    assert_eq!(20, LogLevel::WARN.to_numeric());
    assert_eq!(30, LogLevel::ERROR.to_numeric());
    assert_eq!(40, LogLevel::CRITICAL.to_numeric());
}

#[test]
fn test_text_forms() {
    assert_eq!("TRACE", LogLevel::TRACE.to_text());
    assert_eq!("CRITICAL", LogLevel::CRITICAL.to_text());
}

#[test]
fn test_from_text_case_insensitive() {
    assert_eq!(Some(LogLevel::ERROR), LogLevel::from_text("error"));
    assert_eq!(Some(LogLevel::ERROR), LogLevel::from_text("Error"));
    assert_eq!(Some(LogLevel::ERROR), LogLevel::from_text("eRrOr"));
    assert_eq!(Some(LogLevel::WARN), LogLevel::from_text("warn"));
}

#[test]
fn test_from_text_rejects_unknown() {
    assert_eq!(None, LogLevel::from_text(""));
    assert_eq!(None, LogLevel::from_text("warning"));
    assert_eq!(None, LogLevel::from_text("ERR"));
    assert_eq!(None, LogLevel::from_text("TRACE "));
}
