//! The resolution engine: given a call site and a configuration model,
//! computes the effective minimum level and decides whether a call is
//! enabled. A line-range override takes priority over flat-level overrides;
//! among matching overrides of one kind the longest path wins, a later
//! override winning ties; with no match the root default applies, and with no
//! configuration at all the lowest level TRACE applies, so that nothing is
//! suppressed by accident.

use vstd::prelude::*;

use crate::config::{ModuleView, Root, RootView};
use crate::levels::{level_num, LogLevel};
use crate::line_range::LineRangeSpec;
use crate::strutil::{is_prefix, starts_with, str_eq};

verus! {

/// An override matches a call site when its path is a prefix of the site's
/// module path, or is exactly the site's file path.
pub open spec fn module_matches(mv: ModuleView, module: Seq<char>, file: Seq<char>) -> bool {
    is_prefix(mv.path, module) || mv.path == file
}

/// The best override among `mods` that matches the call site and is
/// line-ranged (`want_ranged`) or flat: the longest path wins, and of two
/// equally long paths the later override wins.
pub open spec fn best_match(
    mods: Seq<ModuleView>,
    module: Seq<char>,
    file: Seq<char>,
    want_ranged: bool,
) -> Option<ModuleView>
    decreases mods.len(),
{
    if mods.len() == 0 {
        None
    } else {
        let prev = best_match(mods.drop_last(), module, file, want_ranged);
        let m = mods.last();
        if module_matches(m, module, file) && (m.lranges is Some) == want_ranged {
            match prev {
                None => Some(m),
                Some(p) => if m.path.len() >= p.path.len() {
                    Some(m)
                } else {
                    Some(p)
                },
            }
        } else {
            prev
        }
    }
}

/// The level bound to `line` by a list of ranges, if any range contains it.
pub open spec fn range_level(rs: Seq<LineRangeSpec>, line: u32) -> Option<LogLevel>
    decreases rs.len(),
{
    if rs.len() == 0 {
        None
    } else if rs[0].from <= line <= rs[0].to {
        Some(rs[0].level)
    } else {
        range_level(rs.drop_first(), line)
    }
}

/// The effective minimum level for a call site: a matching line-range
/// override first, then a matching flat override, then the root default,
/// then TRACE.
pub open spec fn effective_level_spec(
    rv: RootView,
    module: Seq<char>,
    file: Seq<char>,
    line: u32,
) -> LogLevel {
    match best_match(rv.modules, module, file, true) {
        Some(m) => match range_level(m.lranges->0, line) {
            Some(l) => l,
            None => LogLevel::TRACE,
        },
        None => match best_match(rv.modules, module, file, false) {
            Some(m) => match m.level {
                Some(l) => l,
                None => LogLevel::TRACE,
            },
            None => match rv.level {
                Some(l) => l,
                None => LogLevel::TRACE,
            },
        },
    }
}

/// A call is enabled exactly when its level is at least the effective
/// minimum level for its location.
pub open spec fn enabled_spec(
    rv: RootView,
    level: LogLevel,
    module: Seq<char>,
    file: Seq<char>,
    line: u32,
) -> bool {
    level_num(level) >= level_num(effective_level_spec(rv, module, file, line))
}

/// Whether the override at `root@.modules[i]` matches the call site with the
/// wanted kind.
fn match_kind(root: &Root, i: usize, module: &str, file: &str, want_ranged: bool) -> (r: bool)
    requires
        i < root@.modules.len(),
    ensures
        r == (module_matches(root@.modules[i as int], module@, file@)
            && (root@.modules[i as int].lranges is Some) == want_ranged),
{
    let m = root.module_at(i);
    let ranged = m.is_ranged();
    if ranged != want_ranged {
        return false;
    }
    let p = m.path_str();
    starts_with(module, p) || str_eq(p, file)
}

/// The index of the best matching override of the wanted kind, if any.
fn best_match_idx(root: &Root, module: &str, file: &str, want_ranged: bool) -> (r: Option<usize>)
    ensures
        match r {
            Some(i) => i < root@.modules.len() && best_match(
                root@.modules,
                module@,
                file@,
                want_ranged,
            ) == Some(root@.modules[i as int]),
            None => best_match(root@.modules, module@, file@, want_ranged) is None,
        },
{
    let n = root.module_count();
    let mut best: Option<usize> = None;
    let mut i: usize = 0;
    proof {
        assert(root@.modules.subrange(0, 0) =~= Seq::<ModuleView>::empty());
    }
    while i < n
        invariant
            0 <= i <= n,
            n == root@.modules.len(),
            match best {
                Some(b) => b < i && best_match(
                    root@.modules.subrange(0, i as int),
                    module@,
                    file@,
                    want_ranged,
                ) == Some(root@.modules[b as int]),
                None => best_match(
                    root@.modules.subrange(0, i as int),
                    module@,
                    file@,
                    want_ranged,
                ) is None,
            },
        decreases n - i,
    {
        proof {
            let pre = root@.modules.subrange(0, i as int + 1);
            assert(pre.drop_last() =~= root@.modules.subrange(0, i as int));
            assert(pre.last() == root@.modules[i as int]);
        }
        if match_kind(root, i, module, file, want_ranged) {
            match best {
                None => {
                    best = Some(i);
                },
                Some(b) => {
                    let cand = root.module_at(i).path_len();
                    let cur = root.module_at(b).path_len();
                    if cand >= cur {
                        best = Some(i);
                    }
                },
            }
        }
        i = i + 1;
    }
    proof {
        assert(root@.modules.subrange(0, n as int) =~= root@.modules);
    }
    best
}

/// The level bound to `line` by the override at `mi`, TRACE when no declared
/// range contains the line.
fn range_level_at(root: &Root, mi: usize, line: u32) -> (l: LogLevel)
    requires
        mi < root@.modules.len(),
        root@.modules[mi as int].lranges is Some,
    ensures
        l == (match range_level(root@.modules[mi as int].lranges->0, line) {
            Some(l0) => l0,
            None => LogLevel::TRACE,
        }),
{
    let m = root.module_at(mi);
    let n = m.lranges_len();
    let ghost rs = root@.modules[mi as int].lranges->0;
    let mut j: usize = 0;
    proof {
        assert(rs.skip(0) =~= rs);
    }
    while j < n
        invariant
            0 <= j <= n,
            mi < root@.modules.len(),
            root@.modules[mi as int].lranges is Some,
            rs == root@.modules[mi as int].lranges->0,
            n == rs.len(),
            range_level(rs, line) == range_level(rs.skip(j as int), line),
        decreases n - j,
    {
        proof {
            assert(rs.skip(j as int)[0] == rs[j as int]);
            assert(rs.skip(j as int).drop_first() =~= rs.skip(j as int + 1));
        }
        let r = root.module_at(mi).lrange_at(j);
        if r.from <= line && line <= r.to {
            return r.level;
        }
        j = j + 1;
    }
    proof {
        assert(rs.skip(j as int).len() == 0);
    }
    LogLevel::TRACE
}

/// The effective minimum level for the call site `(module, file, line)`
/// under the configuration `root`.
pub fn effective_level(root: &Root, module: &str, file: &str, line: u32) -> (l: LogLevel)
    ensures
        l == effective_level_spec(root@, module@, file@, line),
{
    match best_match_idx(root, module, file, true) {
        Some(i) => {
            proof {
                lemma_best_match_longest(root@.modules, module@, file@, true);
            }
            range_level_at(root, i, line)
        },
        None => match best_match_idx(root, module, file, false) {
            Some(i) => match root.module_at(i).level_opt() {
                Some(l) => l,
                None => LogLevel::TRACE,
            },
            None => match root.level() {
                Some(l) => l,
                None => LogLevel::TRACE,
            },
        },
    }
}

/// Whether a call with `level` at the call site `(module, file, line)` is
/// enabled under the configuration `root`.
pub fn enabled(root: &Root, level: LogLevel, module: &str, file: &str, line: u32) -> (r: bool)
    ensures
        r == enabled_spec(root@, level, module@, file@, line),
{
    let eff = effective_level(root, module, file, line);
    level.to_numeric() >= eff.to_numeric()
}

/// If some matching override is line-ranged, the effective level comes from
/// a line-range override: line ranges take priority over flat levels and
/// over the root default.
pub proof fn lemma_ranged_override_wins(
    rv: RootView,
    module: Seq<char>,
    file: Seq<char>,
    line: u32,
)
    requires
        exists|i: int|
            0 <= i < rv.modules.len() && module_matches(#[trigger] rv.modules[i], module, file)
                && rv.modules[i].lranges is Some,
    ensures
        best_match(rv.modules, module, file, true) is Some,
        effective_level_spec(rv, module, file, line) == (match range_level(
            best_match(rv.modules, module, file, true)->0.lranges->0,
            line,
        ) {
            Some(l) => l,
            None => LogLevel::TRACE,
        }),
{
    let i = choose|i: int|
        0 <= i < rv.modules.len() && module_matches(#[trigger] rv.modules[i], module, file)
            && rv.modules[i].lranges is Some;
    lemma_best_match_found(rv.modules, module, file, true, i);
}

/// When no matching override is line-ranged but some matching flat override
/// exists, the effective level is the selected flat override's level.
pub proof fn lemma_flat_override_applies(
    rv: RootView,
    module: Seq<char>,
    file: Seq<char>,
    line: u32,
)
    requires
        forall|i: int|
            0 <= i < rv.modules.len() && module_matches(#[trigger] rv.modules[i], module, file)
                ==> rv.modules[i].lranges is None,
        exists|i: int|
            0 <= i < rv.modules.len() && module_matches(#[trigger] rv.modules[i], module, file),
    ensures
        best_match(rv.modules, module, file, false) is Some,
        effective_level_spec(rv, module, file, line) == (match best_match(
            rv.modules,
            module,
            file,
            false,
        )->0.level {
            Some(l) => l,
            None => LogLevel::TRACE,
        }),
{
    lemma_best_match_none(rv.modules, module, file, true);
    let i = choose|i: int|
        0 <= i < rv.modules.len() && module_matches(#[trigger] rv.modules[i], module, file);
    lemma_best_match_found(rv.modules, module, file, false, i);
}

/// With no matching override at all, the root default applies, and TRACE
/// with no default.
pub proof fn lemma_no_match_means_default(
    rv: RootView,
    module: Seq<char>,
    file: Seq<char>,
    line: u32,
)
    requires
        forall|i: int|
            0 <= i < rv.modules.len() ==> !module_matches(#[trigger] rv.modules[i], module, file),
    ensures
        effective_level_spec(rv, module, file, line) == (match rv.level {
            Some(l) => l,
            None => LogLevel::TRACE,
        }),
{
    lemma_best_match_none(rv.modules, module, file, true);
    lemma_best_match_none(rv.modules, module, file, false);
}

/// The selected override always matches the call site, carries the wanted
/// kind, and its path is at least as long as that of every matching override
/// of that kind: a longer, more specific path wins over a shorter one.
pub proof fn lemma_best_match_longest(
    mods: Seq<ModuleView>,
    module: Seq<char>,
    file: Seq<char>,
    want_ranged: bool,
)
    requires
        best_match(mods, module, file, want_ranged) is Some,
    ensures
        module_matches(best_match(mods, module, file, want_ranged)->0, module, file),
        (best_match(mods, module, file, want_ranged)->0.lranges is Some) == want_ranged,
        forall|i: int|
            0 <= i < mods.len() && module_matches(#[trigger] mods[i], module, file)
                && (mods[i].lranges is Some) == want_ranged ==> mods[i].path.len() <= best_match(
                mods,
                module,
                file,
                want_ranged,
            )->0.path.len(),
    decreases mods.len(),
{
    if mods.len() > 0 {
        if best_match(mods.drop_last(), module, file, want_ranged) is Some {
            lemma_best_match_longest(mods.drop_last(), module, file, want_ranged);
        }
        assert forall|i: int|
            0 <= i < mods.len() && module_matches(#[trigger] mods[i], module, file)
                && (mods[i].lranges is Some) == want_ranged implies mods[i].path.len() <= best_match(
            mods,
            module,
            file,
            want_ranged,
        )->0.path.len() by {
            if i < mods.len() - 1 {
                assert(mods.drop_last()[i] == mods[i]);
                lemma_best_match_found(mods.drop_last(), module, file, want_ranged, i);
            }
        }
    }
}

/// A matching override of the wanted kind guarantees that the search finds
/// one.
proof fn lemma_best_match_found(
    mods: Seq<ModuleView>,
    module: Seq<char>,
    file: Seq<char>,
    want_ranged: bool,
    i: int,
)
    requires
        0 <= i < mods.len(),
        module_matches(mods[i], module, file),
        (mods[i].lranges is Some) == want_ranged,
    ensures
        best_match(mods, module, file, want_ranged) is Some,
    decreases mods.len(),
{
    if i < mods.len() - 1 {
        assert(mods.drop_last()[i] == mods[i]);
        lemma_best_match_found(mods.drop_last(), module, file, want_ranged, i);
    }
}

/// Without any matching override of the wanted kind the search finds none.
proof fn lemma_best_match_none(
    mods: Seq<ModuleView>,
    module: Seq<char>,
    file: Seq<char>,
    want_ranged: bool,
)
    requires
        forall|i: int|
            0 <= i < mods.len() ==> !(module_matches(#[trigger] mods[i], module, file) && (
            mods[i].lranges is Some) == want_ranged),
    ensures
        best_match(mods, module, file, want_ranged) is None,
    decreases mods.len(),
{
    if mods.len() > 0 {
        assert forall|i: int|
            0 <= i < mods.drop_last().len() implies !(module_matches(
            #[trigger] mods.drop_last()[i],
            module,
            file,
        ) && (mods.drop_last()[i].lranges is Some) == want_ranged) by {
            assert(mods.drop_last()[i] == mods[i]);
        }
        lemma_best_match_none(mods.drop_last(), module, file, want_ranged);
        assert(mods.last() == mods[mods.len() - 1]);
    }
}

} // verus!
