use woodpecker::config::Root;
use woodpecker::levels::LogLevel;
use woodpecker::parser::parse;
use woodpecker::resolve::effective_level;
use woodpecker::shared::{CachedConfig, SharedConfig};

#[test]
fn test_fresh_cache_matches_store() {
    let store = SharedConfig::new(Root::with_level(LogLevel::WARN));
    let cache = CachedConfig::new(&store);
    assert!(!cache.needs_refresh(&store));
    assert_eq!(LogLevel::WARN, effective_level(cache.root(), "m", "f.rs", 1));
}

#[test]
fn test_write_marks_caches_stale() {
    let mut store = SharedConfig::new(Root::new());
    let cache = CachedConfig::new(&store);
    store.install(Root::with_level(LogLevel::ERROR));
    assert!(cache.needs_refresh(&store));
}

#[test]
fn test_next_read_after_write_sees_new_configuration() {
    let mut store = SharedConfig::new(Root::with_level(LogLevel::WARN));
    let mut cache = CachedConfig::new(&store);
    assert_eq!(LogLevel::WARN, effective_level(cache.root(), "m", "f.rs", 1));

    store.install(parse("foo=error").unwrap());
    cache.refresh(&store);
    assert!(!cache.needs_refresh(&store));
    assert_eq!(LogLevel::ERROR, effective_level(cache.root(), "foo", "f.rs", 1));
    assert_eq!(LogLevel::TRACE, effective_level(cache.root(), "m", "f.rs", 1));
}

#[test]
fn test_skipped_generations_converge() {
    let mut store = SharedConfig::new(Root::new());
    let mut cache = CachedConfig::new(&store);
    store.install(Root::with_level(LogLevel::DEBUG));
    store.install(Root::with_level(LogLevel::CRITICAL));
    cache.refresh(&store);
    assert!(!cache.needs_refresh(&store));
    assert_eq!(
        LogLevel::CRITICAL,
        effective_level(cache.root(), "m", "f.rs", 1)
    );
}

#[test]
fn test_refresh_without_write_changes_nothing() {
    let store = SharedConfig::new(Root::with_level(LogLevel::NOTICE));
    let mut cache = CachedConfig::new(&store);
    cache.refresh(&store);
    assert_eq!(LogLevel::NOTICE, effective_level(cache.root(), "m", "f.rs", 1));
}
