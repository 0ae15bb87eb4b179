use woodpecker::config::{Module, Root};
use woodpecker::levels::LogLevel;
use woodpecker::parser::parse;
use woodpecker::resolve::{effective_level, enabled};

#[test]
fn test_root_default_applies_without_match() {
    let root = Root::with_level(LogLevel::WARN);
    assert_eq!(LogLevel::WARN, effective_level(&root, "other", "other.rs", 1));
    assert!(enabled(&root, LogLevel::ERROR, "other", "other.rs", 1));
    assert!(!enabled(&root, LogLevel::INFO, "other", "other.rs", 1));
}

#[test]
fn test_no_configuration_never_suppresses() {
    let root = Root::new();
    assert_eq!(LogLevel::TRACE, effective_level(&root, "any", "any.rs", 1));
    assert!(enabled(&root, LogLevel::TRACE, "any", "any.rs", 1));
}

#[test]
fn test_flat_override_beats_root_default() {
    let root = Root::with_level(LogLevel::ERROR).module(Module::with_level("foo", LogLevel::DEBUG));
    assert_eq!(LogLevel::DEBUG, effective_level(&root, "foo::bar", "foo.rs", 7));
    assert_eq!(LogLevel::ERROR, effective_level(&root, "baz", "baz.rs", 7));
}

#[test]
fn test_longer_path_beats_shorter() {
    let root = Root::new()
        .module(Module::with_level("foo", LogLevel::ERROR))
        .module(Module::with_level("foo::bar", LogLevel::DEBUG));
    assert_eq!(LogLevel::DEBUG, effective_level(&root, "foo::bar::baz", "x.rs", 1));
    assert_eq!(LogLevel::ERROR, effective_level(&root, "foo::qux", "x.rs", 1));

    let root = Root::new()
        .module(Module::with_level("foo::bar", LogLevel::DEBUG))
        .module(Module::with_level("foo", LogLevel::ERROR));
    assert_eq!(LogLevel::DEBUG, effective_level(&root, "foo::bar::baz", "x.rs", 1));
}

#[test]
fn test_line_range_beats_flat_level() {
    let root = Root::new()
        .module(Module::with_level("bar", LogLevel::CRITICAL))
        .module(Module::with_lranges("bar", LogLevel::ERROR, &vec![(10, 100)]).unwrap());
    assert_eq!(LogLevel::ERROR, effective_level(&root, "bar", "bar.rs", 50));
    assert_eq!(LogLevel::TRACE, effective_level(&root, "bar", "bar.rs", 101));
}

#[test]
fn test_file_path_exact_match() {
    let root = Root::new().module(Module::with_level("src/main.rs", LogLevel::NOTICE));
    assert_eq!(
        LogLevel::NOTICE,
        effective_level(&root, "unrelated", "src/main.rs", 3)
    );
    assert_eq!(
        LogLevel::TRACE,
        effective_level(&root, "unrelated", "src/other.rs", 3)
    );
}

#[test]
fn test_parsed_spec_resolution() {
    let root = parse(
        r#"{"level":"critical","modules":[{"path":"bar","level":"error","lines":[[10,100],[120,130]]}]}"#,
    )
    .unwrap();
    assert_eq!(LogLevel::ERROR, effective_level(&root, "bar", "bar.rs", 10));
    assert_eq!(LogLevel::ERROR, effective_level(&root, "bar", "bar.rs", 130));
    assert_eq!(LogLevel::TRACE, effective_level(&root, "bar", "bar.rs", 110));
    assert_eq!(LogLevel::CRITICAL, effective_level(&root, "other", "o.rs", 1));
}

#[test]
fn test_later_override_wins_ties() {
    let root = Root::new()
        .module(Module::with_level("foo", LogLevel::ERROR))
        .module(Module::with_level("foo", LogLevel::DEBUG));
    assert_eq!(LogLevel::DEBUG, effective_level(&root, "foo", "x.rs", 1));
}

#[test]
fn test_enabled_compares_by_numeric_order() {
    let root = Root::with_level(LogLevel::NOTICE);
    assert!(enabled(&root, LogLevel::NOTICE, "m", "f.rs", 1));
    assert!(enabled(&root, LogLevel::CRITICAL, "m", "f.rs", 1));
    assert!(!enabled(&root, LogLevel::INFO, "m", "f.rs", 1));
}
