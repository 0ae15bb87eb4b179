use woodpecker::config::Root;
use woodpecker::levels::LogLevel;
use woodpecker::parser::{parse_level, ParseError};
use woodpecker::resolve::effective_level;

#[test]
fn test_parse_level() {
    assert_eq!(Ok(LogLevel::WARN), parse_level("warn"));
    assert_eq!(Ok(LogLevel::CRITICAL), parse_level("  Critical "));
    assert_eq!(Err(ParseError::LogLevel), parse_level("warning"));
    assert_eq!(Err(ParseError::LogLevel), parse_level(""));
}

#[test]
fn test_set_level_and_module() {
    let mut root = Root::new();
    root.set_level(LogLevel::ERROR);
    root.set_module("foo", LogLevel::DEBUG);
    assert_eq!(Some(LogLevel::ERROR), root.level());
    assert_eq!(LogLevel::DEBUG, effective_level(&root, "foo", "f.rs", 1));
    assert_eq!(LogLevel::ERROR, effective_level(&root, "bar", "f.rs", 1));
}

#[test]
fn test_set_module_lranges() {
    let mut root = Root::new();
    root.set_module("foo", LogLevel::CRITICAL);
    root.set_module_lranges("foo", LogLevel::WARN, &vec![(5, 10)]).unwrap();
    assert_eq!(LogLevel::WARN, effective_level(&root, "foo", "f.rs", 7));
    assert_eq!(LogLevel::TRACE, effective_level(&root, "foo", "f.rs", 11));
}

#[test]
fn test_set_module_lranges_rejects_bad_spans() {
    let mut root = Root::with_level(LogLevel::INFO);
    let before = root.clone();
    match root.set_module_lranges("foo", LogLevel::WARN, &vec![(10, 1)]) {
        Err(ParseError::LineRange(msg)) => {
            assert_eq!("line range has from greater than to", msg);
        }
        other => panic!("expected a line range error, got {:?}", other),
    }
    match root.set_module_lranges("foo", LogLevel::WARN, &vec![]) {
        Err(ParseError::LineRange(msg)) => {
            assert_eq!("no line ranges given", msg);
        }
        other => panic!("expected a line range error, got {:?}", other),
    }
    assert_eq!(before, root);
    assert_eq!(LogLevel::INFO, effective_level(&root, "foo", "f.rs", 7));
}

#[test]
fn test_later_setting_supersedes() {
    let mut root = Root::new();
    root.set_module("foo", LogLevel::ERROR);
    root.set_module("foo", LogLevel::NOTICE);
    assert_eq!(LogLevel::NOTICE, effective_level(&root, "foo", "f.rs", 1));
}
