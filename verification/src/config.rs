//! The configuration model: a root default level plus an ordered set of
//! per-module overrides, each either a flat minimum level or a normalized
//! list of line ranges.

use vstd::prelude::*;

use crate::levels::LogLevel;
use crate::line_range::{
    normalize_spec, prepare_ranges, range_err, ranges_normalized, LineRangeSpec,
};

verus! {

/// One per-module override: a path matched against the call site, carrying
/// either a flat minimum level or a normalized list of line ranges.
#[derive(PartialEq, PartialOrd, Clone, Debug)]
pub struct Module {
    path: String,
    level: Option<LogLevel>,
    lranges: Option<Vec<LineRangeSpec>>,
}

/// The mathematical value of a [`Module`].
pub struct ModuleView {
    pub path: Seq<char>,
    pub level: Option<LogLevel>,
    pub lranges: Option<Seq<LineRangeSpec>>,
}

impl View for Module {
    type V = ModuleView;

    closed spec fn view(&self) -> ModuleView {
        ModuleView {
            path: self.path@,
            level: self.level,
            lranges: match self.lranges {
                Some(v) => Some(v@),
                None => None,
            },
        }
    }
}

/// A well-formed override carries exactly one policy: a flat level, or a
/// normalized list of line ranges.
pub open spec fn module_wf(mv: ModuleView) -> bool {
    &&& (mv.level is Some <==> mv.lranges is None)
    &&& (mv.lranges matches Some(rs) ==> ranges_normalized(rs))
}

impl Module {
    /// An override that enables `path` at the flat minimum `level`.
    pub fn with_level(path: &str, level: LogLevel) -> (m: Module)
        ensures
            m@ == (ModuleView { path: path@, level: Some(level), lranges: None }),
            module_wf(m@),
    {
        Module { path: String::from_str(path), level: Some(level), lranges: None }
    }

    /// An override that binds each declared line span of `path` to `level`,
    /// normalized so that undeclared lines fall back to the baseline TRACE.
    /// Fails, with a message, when the spans are unordered, overlapping or
    /// inverted, or when none are given.
    pub fn with_lranges(path: &str, level: LogLevel, lranges: &Vec<(u32, u32)>) -> (r: Result<
        Module,
        String,
    >)
        ensures
            match r {
                Ok(m) => {
                    &&& lranges@.len() > 0
                    &&& range_err(lranges@, 0) is None
                    &&& m@ == (ModuleView {
                        path: path@,
                        level: None,
                        lranges: Some(normalize_spec(level, lranges@)),
                    })
                    &&& module_wf(m@)
                },
                Err(m) => {
                    &&& (lranges@.len() == 0 || range_err(lranges@, 0) is Some)
                    &&& m@ == (if lranges@.len() == 0 {
                        "no line ranges given"@
                    } else {
                        range_err(lranges@, 0)->0
                    })
                },
            },
    {
        match prepare_ranges(level, lranges) {
            Ok(rs) => Ok(
                Module { path: String::from_str(path), level: None, lranges: Some(rs) },
            ),
            Err(m) => Err(m),
        }
    }

    /// The override's path.
    pub fn path_str(&self) -> (r: &str)
        ensures
            r@ == self@.path,
    {
        self.path.as_str()
    }

    /// The length of the override's path, in characters.
    pub fn path_len(&self) -> (n: usize)
        ensures
            n == self@.path.len(),
    {
        self.path.as_str().unicode_len()
    }

    /// Whether the override is line-ranged rather than flat.
    pub fn is_ranged(&self) -> (r: bool)
        ensures
            r == (self@.lranges is Some),
    {
        self.lranges.is_some()
    }

    /// The override's flat level, if it carries one.
    pub fn level_opt(&self) -> (l: Option<LogLevel>)
        ensures
            l == self@.level,
    {
        self.level
    }

    /// How many ranges a line-ranged override carries.
    pub fn lranges_len(&self) -> (n: usize)
        requires
            self@.lranges is Some,
        ensures
            n == self@.lranges->0.len(),
    {
        match &self.lranges {
            Some(v) => v.len(),
            None => {
                proof {
                    assert(false);
                }
                0
            },
        }
    }

    /// The range at `j` of a line-ranged override.
    pub fn lrange_at(&self, j: usize) -> (r: LineRangeSpec)
        requires
            self@.lranges is Some,
            j < self@.lranges->0.len(),
        ensures
            r == self@.lranges->0[j as int],
    {
        match &self.lranges {
            Some(v) => v[j],
            None => {
                proof {
                    assert(false);
                }
                LineRangeSpec { from: 0, to: 0, level: LogLevel::TRACE }
            },
        }
    }

    /// A copy of this override with the same value.
    pub fn duplicate(&self) -> (m: Module)
        ensures
            m@ == self@,
    {
        let lranges = match &self.lranges {
            None => None,
            Some(rs) => {
                let mut v: Vec<LineRangeSpec> = Vec::new();
                let mut i: usize = 0;
                while i < rs.len()
                    invariant
                        0 <= i <= rs.len(),
                        v@ == rs@.subrange(0, i as int),
                    decreases rs.len() - i,
                {
                    v.push(rs[i]);
                    proof {
                        assert(v@ =~= rs@.subrange(0, i as int + 1));
                    }
                    i = i + 1;
                }
                proof {
                    assert(v@ =~= rs@);
                }
                Some(v)
            },
        };
        Module { path: self.path.clone(), level: self.level, lranges }
    }
}

/// The configuration model: an optional root default level plus an ordered
/// set of per-module overrides.
#[derive(PartialEq, PartialOrd, Clone, Debug)]
pub struct Root {
    level: Option<LogLevel>,
    modules: Vec<Module>,
}

/// The mathematical value of a [`Root`].
pub struct RootView {
    pub level: Option<LogLevel>,
    pub modules: Seq<ModuleView>,
}

impl View for Root {
    type V = RootView;

    closed spec fn view(&self) -> RootView {
        RootView { level: self.level, modules: self.modules@.map_values(|m: Module| m@) }
    }
}

/// A well-formed configuration: every override is well-formed.
pub open spec fn root_wf(rv: RootView) -> bool {
    forall|i: int| 0 <= i < rv.modules.len() ==> module_wf(#[trigger] rv.modules[i])
}

impl Root {
    /// An empty configuration: no root default, no overrides.
    pub fn new() -> (r: Root)
        ensures
            r@ == (RootView { level: None, modules: Seq::empty() }),
            root_wf(r@),
    {
        let r = Root { level: None, modules: Vec::new() };
        proof {
            assert(r@.modules =~= Seq::<ModuleView>::empty());
        }
        r
    }

    /// A configuration whose root default is `level`, with no overrides.
    pub fn with_level(level: LogLevel) -> (r: Root)
        ensures
            r@ == (RootView { level: Some(level), modules: Seq::empty() }),
            root_wf(r@),
    {
        let r = Root { level: Some(level), modules: Vec::new() };
        proof {
            assert(r@.modules =~= Seq::<ModuleView>::empty());
        }
        r
    }

    /// This configuration with `module` appended to its overrides.
    pub fn module(self, module: Module) -> (r: Root)
        ensures
            r@.level == self@.level,
            r@.modules == self@.modules.push(module@),
            root_wf(self@) && module_wf(module@) ==> root_wf(r@),
    {
        let mut modules = self.modules;
        let ghost old_modules = modules@;
        modules.push(module);
        let r = Root { level: self.level, modules };
        proof {
            assert(r@.modules =~= old_modules.map_values(|m: Module| m@).push(module@));
        }
        r
    }

    /// Sets the root default level.
    pub fn set_level(&mut self, level: LogLevel)
        ensures
            final(self)@.level == Some(level),
            final(self)@.modules == old(self)@.modules,
    {
        self.level = Some(level);
    }

    /// Appends an override.
    pub fn push_module(&mut self, module: Module)
        ensures
            final(self)@.level == old(self)@.level,
            final(self)@.modules == old(self)@.modules.push(module@),
            root_wf(old(self)@) && module_wf(module@) ==> root_wf(final(self)@),
    {
        let ghost old_view = self@;
        let ghost mv = module@;
        self.modules.push(module);
        proof {
            assert(self@.modules =~= old_view.modules.push(mv));
            if root_wf(old_view) && module_wf(mv) {
                assert forall|i: int| 0 <= i < self@.modules.len() implies module_wf(
                    #[trigger] self@.modules[i],
                ) by {
                    if i < old_view.modules.len() {
                        assert(self@.modules[i] == old_view.modules[i]);
                    }
                }
            }
        }
    }

    /// The root default level.
    pub fn level(&self) -> (l: Option<LogLevel>)
        ensures
            l == self@.level,
    {
        self.level
    }

    /// How many overrides the configuration holds.
    pub fn module_count(&self) -> (n: usize)
        ensures
            n == self@.modules.len(),
    {
        self.modules.len()
    }

    /// The override at `i`.
    pub fn module_at(&self, i: usize) -> (m: &Module)
        requires
            i < self@.modules.len(),
        ensures
            m@ == self@.modules[i as int],
    {
        &self.modules[i]
    }

    /// Sets a module override to the flat minimum `level`: the new override
    /// is appended, and resolution lets a later override for the same path
    /// take precedence, so the module's previous policy is superseded as a
    /// whole.
    pub fn set_module(&mut self, path: &str, level: LogLevel)
        ensures
            final(self)@.level == old(self)@.level,
            final(self)@.modules == old(self)@.modules.push(
                ModuleView { path: path@, level: Some(level), lranges: None },
            ),
            root_wf(old(self)@) ==> root_wf(final(self)@),
    {
        self.push_module(Module::with_level(path, level));
    }

    /// Sets a module override to line ranges, each declared span bound to
    /// `level` and gaps filled with the baseline TRACE. Invalid spans are
    /// rejected with a contextual message and leave the configuration
    /// untouched.
    pub fn set_module_lranges(&mut self, path: &str, level: LogLevel, lranges: &Vec<(u32, u32)>)
        -> (r: Result<(), crate::parser::ParseError>)
        ensures
            match r {
                Ok(()) => {
                    &&& lranges@.len() > 0
                    &&& range_err(lranges@, 0) is None
                    &&& final(self)@.level == old(self)@.level
                    &&& final(self)@.modules == old(self)@.modules.push(
                        ModuleView {
                            path: path@,
                            level: None,
                            lranges: Some(normalize_spec(level, lranges@)),
                        },
                    )
                    &&& (root_wf(old(self)@) ==> root_wf(final(self)@))
                },
                Err(e) => {
                    &&& (lranges@.len() == 0 || range_err(lranges@, 0) is Some)
                    &&& *final(self) == *old(self)
                    &&& e@ matches crate::parser::ParseErrorView::LineRange(m) && m == (
                    if lranges@.len() == 0 {
                        "no line ranges given"@
                    } else {
                        range_err(lranges@, 0)->0
                    })
                },
            },
    {
        match Module::with_lranges(path, level, lranges) {
            Ok(m) => {
                self.push_module(m);
                Ok(())
            },
            Err(msg) => Err(crate::parser::ParseError::LineRange(msg)),
        }
    }

    /// A copy of this configuration with the same value.
    pub fn snapshot(&self) -> (r: Root)
        ensures
            r@ == self@,
    {
        let mut modules: Vec<Module> = Vec::new();
        let mut i: usize = 0;
        while i < self.modules.len()
            invariant
                0 <= i <= self.modules@.len(),
                modules@.len() == i,
                forall|j: int| 0 <= j < i ==> (#[trigger] modules@[j])@ == self.modules@[j]@,
            decreases self.modules@.len() - i,
        {
            modules.push(self.modules[i].duplicate());
            i = i + 1;
        }
        let r = Root { level: self.level, modules };
        proof {
            assert(r@.modules =~= self@.modules);
        }
        r
    }
}

} // verus!
