//! Line ranges: contiguous spans of source lines bound to a level, and the
//! normalization that makes a module's ranges cover every line exactly once.

use vstd::prelude::*;

use crate::levels::LogLevel;

verus! {

/// One span of source lines bound to a level. Invariant: `from <= to`.
#[derive(PartialEq, Eq, Structural, PartialOrd, Clone, Copy, Debug)]
pub struct LineRangeSpec {
    pub from: u32,
    pub to: u32,
    pub level: LogLevel,
}

/// A normalized list of ranges: non-empty, each span ordered, spans adjacent,
/// and together covering every `u32` line number exactly once.
pub open spec fn ranges_normalized(rs: Seq<LineRangeSpec>) -> bool {
    &&& rs.len() > 0
    &&& rs[0].from == 0
    &&& rs[rs.len() - 1].to == u32::MAX
    &&& (forall|i: int| 0 <= i < rs.len() ==> rs[i].from <= rs[i].to)
    &&& (forall|i: int| 0 <= i < rs.len() - 1 ==> rs[i + 1].from == rs[i].to + 1)
}

/// The first error in the declared ranges, scanning from `i`: a span with
/// `from` greater than `to`, or a span that overlaps or precedes its
/// neighbour.
pub open spec fn range_err(rs: Seq<(u32, u32)>, i: int) -> Option<Seq<char>>
    decreases rs.len() - i,
{
    if i < 0 || i >= rs.len() {
        None
    } else if rs[i].0 > rs[i].1 {
        Some("line range has from greater than to"@)
    } else if i + 1 < rs.len() && rs[i + 1].0 <= rs[i].1 {
        Some("line ranges overlap or are out of order"@)
    } else {
        range_err(rs, i + 1)
    }
}

/// The normalized ranges for declared spans `rs[i..]`, each bound to `level`,
/// with `cur` the first line not yet covered; gaps take the baseline TRACE.
pub open spec fn norm_from(level: LogLevel, rs: Seq<(u32, u32)>, i: int, cur: int) -> Seq<
    LineRangeSpec,
>
    decreases rs.len() - i,
{
    if i < 0 || i >= rs.len() {
        if cur <= u32::MAX {
            seq![
                LineRangeSpec {
                    from: cur as u32,
                    to: u32::MAX,
                    level: LogLevel::TRACE,
                },
            ]
        } else {
            Seq::empty()
        }
    } else {
        let f = rs[i].0;
        let t = rs[i].1;
        (if f > cur {
            seq![
                LineRangeSpec { from: cur as u32, to: (f - 1) as u32, level: LogLevel::TRACE },
            ]
        } else {
            Seq::empty()
        }) + seq![LineRangeSpec { from: f, to: t, level }] + norm_from(level, rs, i + 1, t + 1)
    }
}

/// The normalization of the declared spans `rs`, each bound to `level`.
pub open spec fn normalize_spec(level: LogLevel, rs: Seq<(u32, u32)>) -> Seq<LineRangeSpec> {
    norm_from(level, rs, 0, 0)
}

/// Validates and normalizes declared line ranges. The spans must each have
/// `from <= to` and must be given disjoint and in ascending order; gaps
/// between them are filled with the baseline TRACE, so that every line number
/// resolves to exactly one level.
pub fn prepare_ranges(level: LogLevel, ranges: &Vec<(u32, u32)>) -> (r: Result<
    Vec<LineRangeSpec>,
    String,
>)
    ensures
        match r {
            Ok(out) => {
                &&& ranges@.len() > 0
                &&& range_err(ranges@, 0) is None
                &&& out@ == normalize_spec(level, ranges@)
                &&& ranges_normalized(out@)
            },
            Err(m) => {
                &&& (ranges@.len() == 0 || range_err(ranges@, 0) is Some)
                &&& m@ == (if ranges@.len() == 0 {
                    "no line ranges given"@
                } else {
                    range_err(ranges@, 0)->0
                })
            },
        },
{
    let n = ranges.len();
    if n == 0 {
        return Err(String::from_str("no line ranges given"));
    }
    let mut out: Vec<LineRangeSpec> = Vec::new();
    let mut i: usize = 0;
    let mut cur: u64 = 0;
    while i < n
        invariant
            0 <= i <= n,
            n == ranges@.len(),
            n > 0,
            cur <= 0x1_0000_0000u64,
            i == 0 ==> cur == 0 && out@.len() == 0,
            range_err(ranges@, 0) == range_err(ranges@, i as int),
            normalize_spec(level, ranges@) == out@ + norm_from(
                level,
                ranges@,
                i as int,
                cur as int,
            ),
            out@.len() > 0 ==> out@[0].from == 0,
            out@.len() > 0 ==> out@[out@.len() - 1].to as int + 1 == cur as int,
            forall|k: int| 0 <= k < out@.len() ==> (#[trigger] out@[k]).from <= out@[k].to,
            forall|k: int|
                0 <= k < out@.len() - 1 ==> (#[trigger] out@[k + 1]).from == out@[k].to + 1,
            i > 0 ==> out@.len() > 0,
            i > 0 && i < n ==> cur as int == ranges@[i - 1].1 + 1 && cur as int
                <= ranges@[i as int].0,
        decreases n - i,
    {
        let (f, t) = ranges[i];
        if f > t {
            return Err(String::from_str("line range has from greater than to"));
        }
        if (f as u64) > cur {
            out.push(LineRangeSpec { from: cur as u32, to: f - 1, level: LogLevel::TRACE });
        }
        out.push(LineRangeSpec { from: f, to: t, level });
        if i + 1 < n {
            let (f2, _t2) = ranges[i + 1];
            if f2 <= t {
                proof {
                    assert(range_err(ranges@, i as int) is Some);
                }
                return Err(String::from_str("line ranges overlap or are out of order"));
            }
        }
        proof {
            assert(range_err(ranges@, i as int) == range_err(ranges@, i as int + 1));
        }
        cur = t as u64 + 1;
        i = i + 1;
    }
    if cur <= u32::MAX as u64 {
        out.push(LineRangeSpec { from: cur as u32, to: u32::MAX, level: LogLevel::TRACE });
    }
    Ok(out)
}

/// In a normalized list every line number lies in exactly one span.
pub proof fn lemma_normalized_unique(rs: Seq<LineRangeSpec>, line: u32)
    requires
        ranges_normalized(rs),
    ensures
        exists|i: int|
            0 <= i < rs.len() && (#[trigger] rs[i].from) <= line <= rs[i].to && (forall|j: int|
                0 <= j < rs.len() && (#[trigger] rs[j].from) <= line <= rs[j].to ==> j == i),
{
    assert(covering_index_exists(rs, line)) by {
        lemma_normalized_covers(rs, line);
    }
    let i = choose|i: int| 0 <= i < rs.len() && (#[trigger] rs[i].from) <= line <= rs[i].to;
    assert forall|j: int|
        0 <= j < rs.len() && (#[trigger] rs[j].from) <= line <= rs[j].to implies j == i by {
        if j < i {
            lemma_normalized_ends(rs, j, i - 1);
        }
        if j > i {
            lemma_normalized_ends(rs, i, j - 1);
        }
    }
}

/// Some span of a normalized list contains `line`.
pub open spec fn covering_index_exists(rs: Seq<LineRangeSpec>, line: u32) -> bool {
    exists|i: int| 0 <= i < rs.len() && (#[trigger] rs[i].from) <= line <= rs[i].to
}

/// Between two spans of a normalized list, the earlier ends before the later
/// begins.
proof fn lemma_normalized_ends(rs: Seq<LineRangeSpec>, i: int, j: int)
    requires
        ranges_normalized(rs),
        0 <= i <= j < rs.len() - 1,
    ensures
        rs[i].to < rs[j + 1].from,
    decreases j - i,
{
    if i < j {
        lemma_normalized_ends(rs, i, j - 1);
        assert(rs[j + 1].from == rs[j].to + 1);
    }
}

proof fn lemma_normalized_covers(rs: Seq<LineRangeSpec>, line: u32)
    requires
        ranges_normalized(rs),
    ensures
        covering_index_exists(rs, line),
{
    lemma_normalized_covers_from(rs, line, 0);
}

proof fn lemma_normalized_covers_from(rs: Seq<LineRangeSpec>, line: u32, i: int)
    requires
        ranges_normalized(rs),
        0 <= i < rs.len(),
        rs[i].from <= line,
    ensures
        covering_index_exists(rs, line),
    decreases rs.len() - i,
{
    if line <= rs[i].to {
        assert(0 <= i < rs.len() && rs[i].from <= line <= rs[i].to);
    } else {
        assert(i < rs.len() - 1) by {
            if i == rs.len() - 1 {
                assert(rs[i].to == u32::MAX);
            }
        }
        assert(rs[i + 1].from == rs[i].to + 1);
        lemma_normalized_covers_from(rs, line, i + 1);
    }
}

} // verus!
