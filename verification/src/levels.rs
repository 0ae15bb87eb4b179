//! Log severity levels, their fixed numeric codec and their text form.

use vstd::prelude::*;

use crate::strutil::{chars_eq_nocase, seq_eq_nocase, str_eq_nocase};

verus! {

/// A log severity, from least to most severe. A call is enabled when its own
/// level is at least the effective minimum level for its location.
#[derive(PartialEq, Eq, Structural, PartialOrd, Clone, Copy, Debug)]
pub enum LogLevel {
    TRACE,
    DEBUG,
    VERBOSE,
    INFO,
    NOTICE,
    WARN,
    ERROR,
    CRITICAL,
}

/// All levels, from least to most severe.
pub const LEVELS: [LogLevel; 8] = [
    LogLevel::TRACE,
    LogLevel::DEBUG,
    LogLevel::VERBOSE,
    LogLevel::INFO,
    LogLevel::NOTICE,
    LogLevel::WARN,
    LogLevel::ERROR,
    LogLevel::CRITICAL,
];

/// The fixed, gap-coded numeric projection of a level. The gaps leave room
/// for future intermediate levels without renumbering the existing ones.
pub open spec fn level_num(l: LogLevel) -> int {
    match l {
        LogLevel::TRACE => -30,
        LogLevel::DEBUG => -20,
        LogLevel::VERBOSE => -10,
        LogLevel::INFO => 0,
        LogLevel::NOTICE => 10,
        LogLevel::WARN => 20,
        LogLevel::ERROR => 30,
        LogLevel::CRITICAL => 40,
    }
}

/// Whether `n` is one of the eight fixed numeric codes.
pub open spec fn is_level_num(n: int) -> bool {
    exists|l: LogLevel| level_num(l) == n
}

/// The level whose numeric code is `n`, for `n` among the eight fixed codes.
pub open spec fn level_of_num(n: int) -> LogLevel {
    choose|l: LogLevel| level_num(l) == n
}

impl LogLevel {
    /// The numeric code of this level.
    pub fn to_numeric(self) -> (n: isize)
        ensures
            n as int == level_num(self),
    {
        match self {
            LogLevel::TRACE => -30,
            LogLevel::DEBUG => -20,
            LogLevel::VERBOSE => -10,
            LogLevel::INFO => 0,
            LogLevel::NOTICE => 10,
            LogLevel::WARN => 20,
            LogLevel::ERROR => 30,
            LogLevel::CRITICAL => 40,
        }
    }

    /// The level denoted by the numeric code `n`. Only the eight fixed codes
    /// denote a level; any other value is an internal invariant violation and
    /// is excluded by the precondition rather than handled at run time.
    pub fn from_numeric(n: isize) -> (l: LogLevel)
        requires
            is_level_num(n as int),
        ensures
            level_num(l) == n as int,
            l == level_of_num(n as int),
    {
        let l = match n {
            -30 => LogLevel::TRACE,
            -20 => LogLevel::DEBUG,
            -10 => LogLevel::VERBOSE,
            0 => LogLevel::INFO,
            10 => LogLevel::NOTICE,
            20 => LogLevel::WARN,
            30 => LogLevel::ERROR,
            40 => LogLevel::CRITICAL,
            _ => {
                proof {
                    let m = choose|m: LogLevel| level_num(m) == n as int;
                    assert(level_num(m) == n as int);
                    assert(false);
                }
                LogLevel::INFO
            },
        };
        proof {
            let m = choose|m: LogLevel| level_num(m) == n as int;
            assert(level_num(m) == n as int);
            lemma_level_num_injective(m, l);
        }
        l
    }
}

/// The numeric codec is injective: no two levels share a code, so a level is
/// recovered exactly from its code.
pub proof fn lemma_level_num_injective(a: LogLevel, b: LogLevel)
    requires
        level_num(a) == level_num(b),
    ensures
        a == b,
{
}

/// The stable text form of a level: its enumerator name.
pub open spec fn level_name(l: LogLevel) -> Seq<char> {
    match l {
        LogLevel::TRACE => "TRACE"@,
        LogLevel::DEBUG => "DEBUG"@,
        LogLevel::VERBOSE => "VERBOSE"@,
        LogLevel::INFO => "INFO"@,
        LogLevel::NOTICE => "NOTICE"@,
        LogLevel::WARN => "WARN"@,
        LogLevel::ERROR => "ERROR"@,
        LogLevel::CRITICAL => "CRITICAL"@,
    }
}

/// The level whose name matches `s` up to ASCII case, if any.
pub open spec fn spec_level_from_text(s: Seq<char>) -> Option<LogLevel> {
    if seq_eq_nocase(s, "TRACE"@) {
        Some(LogLevel::TRACE)
    } else if seq_eq_nocase(s, "DEBUG"@) {
        Some(LogLevel::DEBUG)
    } else if seq_eq_nocase(s, "VERBOSE"@) {
        Some(LogLevel::VERBOSE)
    } else if seq_eq_nocase(s, "INFO"@) {
        Some(LogLevel::INFO)
    } else if seq_eq_nocase(s, "NOTICE"@) {
        Some(LogLevel::NOTICE)
    } else if seq_eq_nocase(s, "WARN"@) {
        Some(LogLevel::WARN)
    } else if seq_eq_nocase(s, "ERROR"@) {
        Some(LogLevel::ERROR)
    } else if seq_eq_nocase(s, "CRITICAL"@) {
        Some(LogLevel::CRITICAL)
    } else {
        None
    }
}

impl LogLevel {
    /// The stable text form of this level.
    pub fn to_text(self) -> (r: &'static str)
        ensures
            r@ == level_name(self),
    {
        match self {
            LogLevel::TRACE => "TRACE",
            LogLevel::DEBUG => "DEBUG",
            LogLevel::VERBOSE => "VERBOSE",
            LogLevel::INFO => "INFO",
            LogLevel::NOTICE => "NOTICE",
            LogLevel::WARN => "WARN",
            LogLevel::ERROR => "ERROR",
            LogLevel::CRITICAL => "CRITICAL",
        }
    }

    /// Parses a level name, ignoring ASCII case.
    pub fn from_text(s: &str) -> (r: Option<LogLevel>)
        ensures
            r == spec_level_from_text(s@),
    {
        if str_eq_nocase(s, "TRACE") {
            Some(LogLevel::TRACE)
        } else if str_eq_nocase(s, "DEBUG") {
            Some(LogLevel::DEBUG)
        } else if str_eq_nocase(s, "VERBOSE") {
            Some(LogLevel::VERBOSE)
        } else if str_eq_nocase(s, "INFO") {
            Some(LogLevel::INFO)
        } else if str_eq_nocase(s, "NOTICE") {
            Some(LogLevel::NOTICE)
        } else if str_eq_nocase(s, "WARN") {
            Some(LogLevel::WARN)
        } else if str_eq_nocase(s, "ERROR") {
            Some(LogLevel::ERROR)
        } else if str_eq_nocase(s, "CRITICAL") {
            Some(LogLevel::CRITICAL)
        } else {
            None
        }
    }
}

proof fn reveal_level_names()
    ensures
        "TRACE"@.len() == 5,
        "DEBUG"@.len() == 5,
        "VERBOSE"@.len() == 7,
        "INFO"@.len() == 4,
        "NOTICE"@.len() == 6,
        "WARN"@.len() == 4,
        "ERROR"@.len() == 5,
        "CRITICAL"@.len() == 8,
        "TRACE"@[0] == 'T',
        "DEBUG"@[0] == 'D',
        "ERROR"@[0] == 'E',
        "INFO"@[0] == 'I',
        "WARN"@[0] == 'W',
{
    reveal_strlit("TRACE");
    reveal_strlit("DEBUG");
    reveal_strlit("VERBOSE");
    reveal_strlit("INFO");
    reveal_strlit("NOTICE");
    reveal_strlit("WARN");
    reveal_strlit("ERROR");
    reveal_strlit("CRITICAL");
}

/// A level name matches no other level's name, even ignoring case, so every
/// level round-trips through its text form.
pub proof fn lemma_text_round_trip(l: LogLevel)
    ensures
        spec_level_from_text(level_name(l)) == Some(l),
{
    reveal_level_names();
    assert forall|m: LogLevel| seq_eq_nocase(level_name(m), level_name(m)) by {
        assert(forall|i: int|
            0 <= i < level_name(m).len() ==> chars_eq_nocase(
                level_name(m)[i],
                level_name(m)[i],
            ));
    }
    match l {
        LogLevel::TRACE => {
        },
        LogLevel::DEBUG => {
            assert(!chars_eq_nocase("DEBUG"@[0], "TRACE"@[0]));
        },
        LogLevel::VERBOSE => {
        },
        LogLevel::INFO => {
            assert(!chars_eq_nocase("INFO"@[0], "WARN"@[0]));
        },
        LogLevel::NOTICE => {
        },
        LogLevel::WARN => {
            assert(!chars_eq_nocase("WARN"@[0], "INFO"@[0]));
        },
        LogLevel::ERROR => {
            assert(!chars_eq_nocase("ERROR"@[0], "TRACE"@[0]));
            assert(!chars_eq_nocase("ERROR"@[0], "DEBUG"@[0]));
        },
        LogLevel::CRITICAL => {
        },
    }
}

/// Every level round-trips through its numeric code.
pub proof fn lemma_numeric_round_trip(l: LogLevel)
    ensures
        is_level_num(level_num(l)),
        level_of_num(level_num(l)) == l,
{
    assert(level_num(l) == level_num(l));
    let m = choose|m: LogLevel| level_num(m) == level_num(l);
    assert(level_num(m) == level_num(l));
}

} // verus!
