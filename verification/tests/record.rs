use std::cell::Cell;

use woodpecker::levels::LogLevel;
use woodpecker::record::{AsyncRecord, RecordLazyMeta, RecordMeta, SyncRecord, Timespec};

fn sample_record(args: &str) -> SyncRecord {
    SyncRecord::new(
        LogLevel::INFO,
        String::from("app::worker"),
        String::from("worker.rs"),
        42,
        Timespec { sec: 0, nsec: 0 },
        String::from(args),
    )
}

#[test]
fn test_eager_fields() {
    let r = sample_record("hello");
    assert_eq!(LogLevel::INFO, r.level());
    assert_eq!("app::worker", r.module());
    assert_eq!("worker.rs", r.file());
    assert_eq!(42, r.line());
    assert_eq!(Timespec { sec: 0, nsec: 0 }, r.ts());
}

#[test]
fn test_msg_memoized() {
    let mut r = sample_record("first");
    assert_eq!("first", r.msg());
    assert_eq!("first", r.msg());
}

#[test]
fn test_deferred_cell_keeps_first_value() {
    let mut cell = RecordLazyMeta::new();
    assert_eq!("a", cell.msg(String::from("a")));
    assert_eq!("a", cell.msg(String::from("b")));
}

#[test]
fn test_formatted_invoked_once() {
    let calls = Cell::new(0u32);
    let fmt = |meta: &RecordMeta, msg: &String| {
        calls.set(calls.get() + 1);
        format!("{}:{} {}", meta.module, meta.line, msg)
    };
    let mut r = sample_record("payload");
    let first = r.formatted(fmt);
    assert_eq!("app::worker:42 payload", first);
    let second = r.formatted(fmt);
    assert_eq!(first, second);
    assert_eq!(1, calls.get());
}

#[test]
fn test_ts_utc_epoch() {
    let mut r = sample_record("x");
    let utc = r.ts_utc().unwrap();
    assert_eq!(1970, utc.year);
    assert_eq!(1, utc.month);
    assert_eq!(1, utc.day);
    assert_eq!(0, utc.hour);
    assert_eq!(0, utc.minute);
    assert_eq!(0, utc.second);
    assert_eq!(0, utc.nanosecond);
}

#[test]
fn test_ts_utc_known_instant() {
    let mut r = SyncRecord::new(
        LogLevel::DEBUG,
        String::from("m"),
        String::from("f.rs"),
        1,
        Timespec { sec: 1431648000, nsec: 500 },
        String::from("x"),
    );
    let utc = r.ts_utc().unwrap();
    assert_eq!(2015, utc.year);
    assert_eq!(5, utc.month);
    assert_eq!(15, utc.day);
    assert_eq!(0, utc.hour);
    assert_eq!(500, utc.nanosecond);
}

#[test]
fn test_ts_utc_out_of_range() {
    let mut r = SyncRecord::new(
        LogLevel::DEBUG,
        String::from("m"),
        String::from("f.rs"),
        1,
        Timespec { sec: i64::MAX, nsec: 0 },
        String::from("x"),
    );
    assert_eq!(None, r.ts_utc());
}

#[test]
fn test_conversion_preserves_identity_and_work() {
    let calls = Cell::new(0u32);
    let fmt = |meta: &RecordMeta, msg: &String| {
        calls.set(calls.get() + 1);
        format!("[{}] {}", meta.file, msg)
    };
    let mut sync_rec = sample_record("shared");
    let rendered = sync_rec.formatted(fmt);
    let mut owned = AsyncRecord::from(sync_rec);
    assert_eq!(LogLevel::INFO, owned.level());
    assert_eq!("app::worker", owned.module());
    assert_eq!("shared", owned.msg());
    let again = owned.formatted(fmt);
    assert_eq!(rendered, again);
    assert_eq!(1, calls.get());
}

#[test]
fn test_async_formatted_from_scratch() {
    let calls = Cell::new(0u32);
    let fmt = |_meta: &RecordMeta, msg: &String| {
        calls.set(calls.get() + 1);
        format!("<{}>", msg)
    };
    let sync_rec = sample_record("later");
    let mut owned = AsyncRecord::from(sync_rec);
    assert_eq!("<later>", owned.formatted(fmt));
    assert_eq!("<later>", owned.formatted(fmt));
    assert_eq!(1, calls.get());
}
