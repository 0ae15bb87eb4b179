use woodpecker::levels::LogLevel;
use woodpecker::line_range::{prepare_ranges, LineRangeSpec};

fn span(from: u32, to: u32, level: LogLevel) -> LineRangeSpec {
    LineRangeSpec { from, to, level }
}

#[test]
fn test_normalization_fills_gaps() {
    let out = prepare_ranges(LogLevel::ERROR, &vec![(10, 100), (120, 130)]).unwrap();
    assert_eq!(
        vec![
            span(0, 9, LogLevel::TRACE),
            span(10, 100, LogLevel::ERROR),
            span(101, 119, LogLevel::TRACE),
            span(120, 130, LogLevel::ERROR),
            span(131, u32::MAX, LogLevel::TRACE),
        ],
        out
    );
}

#[test]
fn test_normalization_covers_whole_file() {
    let out = prepare_ranges(LogLevel::WARN, &vec![(0, u32::MAX)]).unwrap();
    assert_eq!(vec![span(0, u32::MAX, LogLevel::WARN)], out);
}

#[test]
fn test_adjacent_ranges_accepted() {
    let out = prepare_ranges(LogLevel::WARN, &vec![(1, 5), (6, 9)]).unwrap();
    assert_eq!(
        vec![
            span(0, 0, LogLevel::TRACE),
            span(1, 5, LogLevel::WARN),
            span(6, 9, LogLevel::WARN),
            span(10, u32::MAX, LogLevel::TRACE),
        ],
        out
    );
}

#[test]
fn test_empty_ranges_rejected() {
    assert!(prepare_ranges(LogLevel::WARN, &vec![]).is_err());
}

#[test]
fn test_inverted_range_rejected() {
    assert!(prepare_ranges(LogLevel::WARN, &vec![(10, 1)]).is_err());
}

#[test]
fn test_overlapping_ranges_rejected() {
    assert!(prepare_ranges(LogLevel::WARN, &vec![(1, 10), (5, 20)]).is_err());
    assert!(prepare_ranges(LogLevel::WARN, &vec![(5, 20), (1, 4)]).is_err());
}
