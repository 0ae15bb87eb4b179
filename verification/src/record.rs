//! The lazy log record: eager identity fields, and deferred fields — the
//! rendered message, the formatted output, the UTC timestamp — each computed
//! at most once and kept thereafter. The record exists in a synchronous,
//! call-bound variant and an owning, asynchronous variant; converting to the
//! owning variant materializes the message while keeping the deferred cell,
//! so work already done is never redone.

use vstd::prelude::*;

use chrono::{Datelike, Timelike};

use crate::levels::LogLevel;

verus! {

/// A capture timestamp: seconds since the epoch and a nanosecond part.
#[derive(PartialEq, Eq, Structural, Clone, Copy, Debug)]
pub struct Timespec {
    pub sec: i64,
    pub nsec: i32,
}

impl Timespec {
    /// A valid timestamp keeps its nanosecond part below one second.
    pub open spec fn wf(self) -> bool {
        0 <= self.nsec < 1_000_000_000
    }
}

/// A timestamp broken into its civil UTC fields.
#[derive(PartialEq, Eq, Structural, Clone, Copy, Debug)]
pub struct UtcDateTime {
    pub year: i32,
    pub month: u32,
    pub day: u32,
    pub hour: u32,
    pub minute: u32,
    pub second: u32,
    pub nanosecond: u32,
}

/// The civil UTC reading of an epoch pair, when the pair is in range: a
/// function of the pair alone.
pub uninterp spec fn utc_of(sec: i64, nsec: u32) -> Option<UtcDateTime>;

/// Relies on chrono::DateTime::<Utc>::from_timestamp and its calendar
/// accessors: the civil UTC fields are computed from the epoch pair alone,
/// and None is returned exactly on a pair chrono rejects as out of range.
#[verifier::external_body]
fn utc_fields(sec: i64, nsec: u32) -> (r: Option<UtcDateTime>)
    ensures
        r == utc_of(sec, nsec),
{
    match chrono::DateTime::<chrono::Utc>::from_timestamp(sec, nsec) {
        None => None,
        Some(d) => Some(
            UtcDateTime {
                year: d.year(),
                month: d.month(),
                day: d.day(),
                hour: d.hour(),
                minute: d.minute(),
                second: d.second(),
                nanosecond: d.timestamp_subsec_nanos(),
            },
        ),
    }
}

/// The eager identity of one log event.
pub struct RecordMeta {
    pub level: LogLevel,
    pub module: String,
    pub file: String,
    pub line: u32,
    pub ts: Timespec,
}

impl RecordMeta {
    /// A record identity with the given call-site coordinates.
    pub fn new(level: LogLevel, module: String, file: String, line: u32, ts: Timespec) -> (r:
        RecordMeta)
        ensures
            r.level == level,
            r.module == module,
            r.file == file,
            r.line == line,
            r.ts == ts,
    {
        RecordMeta { level, module, file, line, ts }
    }
}

/// What storing a value in a deferred cell leaves there: only the first
/// value is kept.
pub open spec fn set_once<T>(cur: Option<T>, v: T) -> Option<T> {
    if cur is Some {
        cur
    } else {
        Some(v)
    }
}

/// A deferred cell accepts only the first value: a later store changes
/// nothing, and the cell is filled from the first store on, so every caller
/// observes the first value.
pub proof fn lemma_set_once_idempotent<T>(cur: Option<T>, v1: T, v2: T)
    ensures
        set_once(set_once(cur, v1), v2) == set_once(cur, v1),
        set_once(cur, v1) is Some,
{
}

/// The deferred fields of one record, each absent until computed once.
pub struct RecordLazyMetaInner {
    pub msg: Option<String>,
    pub formatted: Option<String>,
    pub ts_utc: Option<UtcDateTime>,
}

impl RecordLazyMetaInner {
    /// A cell with no deferred field computed yet.
    pub fn new() -> (r: RecordLazyMetaInner)
        ensures
            r.msg is None,
            r.formatted is None,
            r.ts_utc is None,
    {
        RecordLazyMetaInner { msg: None, formatted: None, ts_utc: None }
    }

    /// Keeps `rendered` as the message unless a message is already present.
    pub fn mk_msg(&mut self, rendered: String)
        ensures
            final(self).msg == set_once(old(self).msg, rendered),
            final(self).formatted == old(self).formatted,
            final(self).ts_utc == old(self).ts_utc,
    {
        if self.msg.is_none() {
            self.msg = Some(rendered);
        }
    }

    /// Keeps `rendered` as the formatted output unless one is already
    /// present.
    pub fn mk_formatted(&mut self, rendered: String)
        ensures
            final(self).formatted == set_once(old(self).formatted, rendered),
            final(self).msg == old(self).msg,
            final(self).ts_utc == old(self).ts_utc,
    {
        if self.formatted.is_none() {
            self.formatted = Some(rendered);
        }
    }

    /// Computes the UTC reading of the record's timestamp unless it is
    /// already present.
    pub fn mk_ts_utc(&mut self, record: &RecordMeta)
        requires
            record.ts.wf(),
        ensures
            final(self).ts_utc == (if old(self).ts_utc is Some {
                old(self).ts_utc
            } else {
                utc_of(record.ts.sec, record.ts.nsec as u32)
            }),
            final(self).msg == old(self).msg,
            final(self).formatted == old(self).formatted,
    {
        if self.ts_utc.is_none() {
            self.ts_utc = utc_fields(record.ts.sec, record.ts.nsec as u32);
        }
    }
}

/// The deferred half of a record. The caller supplies the mutual exclusion
/// that serializes access to it; each transition here says exactly what one
/// serialized step does.
pub struct RecordLazyMeta {
    pub irecord: RecordLazyMetaInner,
}

impl RecordLazyMeta {
    /// A deferred half with nothing computed yet.
    pub fn new() -> (r: RecordLazyMeta)
        ensures
            r.irecord.msg is None,
            r.irecord.formatted is None,
            r.irecord.ts_utc is None,
    {
        RecordLazyMeta { irecord: RecordLazyMetaInner::new() }
    }

    /// The message: `rendered` on the first request, the kept value ever
    /// after.
    pub fn msg(&mut self, rendered: String) -> (r: String)
        ensures
            final(self).irecord.msg == set_once(old(self).irecord.msg, rendered),
            final(self).irecord.formatted == old(self).irecord.formatted,
            final(self).irecord.ts_utc == old(self).irecord.ts_utc,
            final(self).irecord.msg == Some(r),
    {
        self.irecord.mk_msg(rendered);
        match &self.irecord.msg {
            Some(m) => m.clone(),
            None => {
                proof {
                    assert(false);
                }
                String::new()
            },
        }
    }

    /// The formatted output: computed by `f` from the record's identity and
    /// message on the first request, the kept value ever after. The
    /// formatter runs only when no output is present yet.
    pub fn formatted<F: Fn(&RecordMeta, &String) -> String>(
        &mut self,
        meta: &RecordMeta,
        msg: &String,
        f: F,
    ) -> (r: String)
        requires
            old(self).irecord.formatted is None ==> call_requires(f, (meta, msg)),
        ensures
            final(self).irecord.msg == old(self).irecord.msg,
            final(self).irecord.ts_utc == old(self).irecord.ts_utc,
            final(self).irecord.formatted is Some,
            final(self).irecord.formatted == Some(r),
            old(self).irecord.formatted is Some ==> final(self).irecord == old(self).irecord
                && old(self).irecord.formatted == Some(r),
            old(self).irecord.formatted is None ==> call_ensures(f, (meta, msg), r)
                && final(self).irecord.formatted == set_once(old(self).irecord.formatted, r),
    {
        if self.irecord.formatted.is_none() {
            let rendered = f(meta, msg);
            self.irecord.mk_formatted(rendered);
        }
        match &self.irecord.formatted {
            Some(m) => m.clone(),
            None => {
                proof {
                    assert(false);
                }
                String::new()
            },
        }
    }

    /// The UTC timestamp: converted once on the first request, the kept
    /// value ever after; absent only when the raw timestamp is out of the
    /// convertible range.
    pub fn ts_utc(&mut self, record: &RecordMeta) -> (r: Option<UtcDateTime>)
        requires
            record.ts.wf(),
        ensures
            final(self).irecord.ts_utc == (if old(self).irecord.ts_utc is Some {
                old(self).irecord.ts_utc
            } else {
                utc_of(record.ts.sec, record.ts.nsec as u32)
            }),
            final(self).irecord.msg == old(self).irecord.msg,
            final(self).irecord.formatted == old(self).irecord.formatted,
            r == final(self).irecord.ts_utc,
    {
        self.irecord.mk_ts_utc(record);
        self.irecord.ts_utc
    }
}

/// The synchronous, call-bound variant of a record: it carries the message
/// as rendered at the call site and the record's own deferred cell.
pub struct SyncRecord {
    pub irecord: RecordMeta,
    pub args: String,
    pub precord: RecordLazyMeta,
}

impl SyncRecord {
    /// A fresh record for one log event, nothing deferred computed yet.
    pub fn new(
        level: LogLevel,
        module: String,
        file: String,
        line: u32,
        ts: Timespec,
        args: String,
    ) -> (r: SyncRecord)
        ensures
            r.irecord.level == level,
            r.irecord.module == module,
            r.irecord.file == file,
            r.irecord.line == line,
            r.irecord.ts == ts,
            r.args == args,
            r.precord.irecord.msg is None,
            r.precord.irecord.formatted is None,
            r.precord.irecord.ts_utc is None,
    {
        SyncRecord {
            irecord: RecordMeta::new(level, module, file, line, ts),
            args,
            precord: RecordLazyMeta::new(),
        }
    }

    /// The record's level.
    pub fn level(&self) -> (l: LogLevel)
        ensures
            l == self.irecord.level,
    {
        self.irecord.level
    }

    /// The record's module path.
    pub fn module(&self) -> (m: &str)
        ensures
            m@ == self.irecord.module@,
    {
        self.irecord.module.as_str()
    }

    /// The record's file path.
    pub fn file(&self) -> (f: &str)
        ensures
            f@ == self.irecord.file@,
    {
        self.irecord.file.as_str()
    }

    /// The record's line number.
    pub fn line(&self) -> (l: u32)
        ensures
            l == self.irecord.line,
    {
        self.irecord.line
    }

    /// The record's raw capture timestamp.
    pub fn ts(&self) -> (t: Timespec)
        ensures
            t == self.irecord.ts,
    {
        self.irecord.ts
    }

    /// The message, rendered from the call's arguments once.
    pub fn msg(&mut self) -> (r: String)
        ensures
            final(self).irecord == old(self).irecord,
            final(self).args == old(self).args,
            final(self).precord.irecord.msg == set_once(
                old(self).precord.irecord.msg,
                old(self).args,
            ),
            final(self).precord.irecord.formatted == old(self).precord.irecord.formatted,
            final(self).precord.irecord.ts_utc == old(self).precord.irecord.ts_utc,
            final(self).precord.irecord.msg == Some(r),
    {
        let rendered = self.args.clone();
        self.precord.msg(rendered)
    }

    /// The fully rendered output, computed by `f` once.
    pub fn formatted<F: Fn(&RecordMeta, &String) -> String>(&mut self, f: F) -> (r: String)
        requires
            forall|a: &RecordMeta, b: &String| #[trigger] call_requires(f, (a, b)),
        ensures
            final(self).irecord == old(self).irecord,
            final(self).args == old(self).args,
            final(self).precord.irecord.msg == set_once(
                old(self).precord.irecord.msg,
                old(self).args,
            ),
            final(self).precord.irecord.ts_utc == old(self).precord.irecord.ts_utc,
            final(self).precord.irecord.formatted is Some,
            final(self).precord.irecord.formatted == Some(r),
            old(self).precord.irecord.formatted matches Some(v) ==> r == v,
            old(self).precord.irecord.formatted is None ==> call_ensures(
                f,
                (&old(self).irecord, &set_once(old(self).precord.irecord.msg, old(self).args)->0),
                r,
            ),
    {
        let m = self.msg();
        self.precord.formatted(&self.irecord, &m, f)
    }

    /// The UTC timestamp, converted once.
    pub fn ts_utc(&mut self) -> (r: Option<UtcDateTime>)
        requires
            old(self).irecord.ts.wf(),
        ensures
            final(self).irecord == old(self).irecord,
            final(self).args == old(self).args,
            final(self).precord.irecord.msg == old(self).precord.irecord.msg,
            final(self).precord.irecord.formatted == old(self).precord.irecord.formatted,
            final(self).precord.irecord.ts_utc == (if old(self).precord.irecord.ts_utc is Some {
                old(self).precord.irecord.ts_utc
            } else {
                utc_of(old(self).irecord.ts.sec, old(self).irecord.ts.nsec as u32)
            }),
            r == final(self).precord.irecord.ts_utc,
    {
        self.precord.ts_utc(&self.irecord)
    }
}

/// The owning, asynchronous variant of a record: the message is
/// materialized eagerly, so the record outlives the call that made it,
/// while the deferred cell is carried over so work already done is reused.
pub struct AsyncRecord {
    pub irecord: RecordMeta,
    pub msg: String,
    pub precord: RecordLazyMeta,
}

impl AsyncRecord {
    /// Converts a synchronous record into an owning one: the message is
    /// rendered now; identity and deferred state carry over unchanged.
    pub fn from_sync(orig: SyncRecord) -> (r: AsyncRecord)
        ensures
            r.irecord == orig.irecord,
            r.msg == orig.args,
            r.precord == orig.precord,
    {
        AsyncRecord { irecord: orig.irecord, msg: orig.args, precord: orig.precord }
    }

    /// The record's level.
    pub fn level(&self) -> (l: LogLevel)
        ensures
            l == self.irecord.level,
    {
        self.irecord.level
    }

    /// The record's module path.
    pub fn module(&self) -> (m: &str)
        ensures
            m@ == self.irecord.module@,
    {
        self.irecord.module.as_str()
    }

    /// The record's file path.
    pub fn file(&self) -> (f: &str)
        ensures
            f@ == self.irecord.file@,
    {
        self.irecord.file.as_str()
    }

    /// The record's line number.
    pub fn line(&self) -> (l: u32)
        ensures
            l == self.irecord.line,
    {
        self.irecord.line
    }

    /// The record's raw capture timestamp.
    pub fn ts(&self) -> (t: Timespec)
        ensures
            t == self.irecord.ts,
    {
        self.irecord.ts
    }

    /// The materialized message, as a `String`.
    pub fn msg(&self) -> (r: String)
        ensures
            r == self.msg,
    {
        self.msg.clone()
    }

    /// The fully rendered output, computed by `f` once; output already
    /// computed through the synchronous variant is reused.
    pub fn formatted<F: Fn(&RecordMeta, &String) -> String>(&mut self, f: F) -> (r: String)
        requires
            forall|a: &RecordMeta, b: &String| #[trigger] call_requires(f, (a, b)),
        ensures
            final(self).irecord == old(self).irecord,
            final(self).msg == old(self).msg,
            final(self).precord.irecord.msg == old(self).precord.irecord.msg,
            final(self).precord.irecord.ts_utc == old(self).precord.irecord.ts_utc,
            final(self).precord.irecord.formatted is Some,
            final(self).precord.irecord.formatted == Some(r),
            old(self).precord.irecord.formatted matches Some(v) ==> r == v,
            old(self).precord.irecord.formatted is None ==> call_ensures(
                f,
                (&old(self).irecord, &old(self).msg),
                r,
            ),
    {
        let m = self.msg.clone();
        self.precord.formatted(&self.irecord, &m, f)
    }

    /// The UTC timestamp, converted once.
    pub fn ts_utc(&mut self) -> (r: Option<UtcDateTime>)
        requires
            old(self).irecord.ts.wf(),
        ensures
            final(self).irecord == old(self).irecord,
            final(self).msg == old(self).msg,
            final(self).precord.irecord.msg == old(self).precord.irecord.msg,
            final(self).precord.irecord.formatted == old(self).precord.irecord.formatted,
            final(self).precord.irecord.ts_utc == (if old(self).precord.irecord.ts_utc is Some {
                old(self).precord.irecord.ts_utc
            } else {
                utc_of(old(self).irecord.ts.sec, old(self).irecord.ts.nsec as u32)
            }),
            r == final(self).precord.irecord.ts_utc,
    {
        self.precord.ts_utc(&self.irecord)
    }
}

impl From<SyncRecord> for AsyncRecord {
    fn from(orig: SyncRecord) -> (r: AsyncRecord) {
        AsyncRecord::from_sync(orig)
    }
}

impl vstd::std_specs::convert::FromSpecImpl<SyncRecord> for AsyncRecord {
    open spec fn obeys_from_spec() -> bool {
        true
    }

    open spec fn from_spec(orig: SyncRecord) -> AsyncRecord {
        AsyncRecord { irecord: orig.irecord, msg: orig.args, precord: orig.precord }
    }
}

} // verus!
