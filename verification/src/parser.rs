//! The spec parser: turns either a compact comma-separated token grammar or a
//! structured JSON document into a configuration model, or fails with a
//! precise error kind. The JSON text itself is decoded by serde_json behind a
//! trusted wrapper; every grammar decision on the decoded document is made by
//! verified code.

use vstd::prelude::*;

use crate::config::{module_wf, root_wf, Module, ModuleView, Root, RootView};
use crate::levels::{spec_level_from_text, LogLevel};
use crate::line_range::{normalize_spec, range_err};
use crate::strutil::{find_char, find_idx, lemma_find_props, str_eq, trim, trim_spec};

verus! {

/// Where in a JSON document validation failed.
#[derive(PartialEq, Eq, Structural, PartialOrd, Clone, Copy, Debug)]
pub enum JsonError {
    /// The text is not valid JSON.
    Json,
    /// The root is missing, empty or not an object.
    Root,
    /// The array of modules is invalid.
    Module,
    /// The log level of the root is invalid.
    RootLogLevel,
    /// The log level of a module is invalid.
    ModuleLogLevel,
    /// A line range of a module is invalid.
    LineRange,
}

/// Why a spec failed to parse.
#[derive(PartialEq, PartialOrd, Clone, Debug)]
pub enum ParseError {
    /// Malformed token grammar.
    Spec,
    /// A bare level name did not parse.
    LogLevel,
    /// A directly supplied line range is invalid; the message says how.
    LineRange(String),
    /// A JSON document failed to parse or validate.
    Json(JsonError),
}

/// The mathematical value of a [`ParseError`].
pub enum ParseErrorView {
    Spec,
    LogLevel,
    LineRange(Seq<char>),
    Json(JsonError),
}

impl View for ParseError {
    type V = ParseErrorView;

    open spec fn view(&self) -> ParseErrorView {
        match self {
            ParseError::Spec => ParseErrorView::Spec,
            ParseError::LogLevel => ParseErrorView::LogLevel,
            ParseError::LineRange(m) => ParseErrorView::LineRange(m@),
            ParseError::Json(e) => ParseErrorView::Json(*e),
        }
    }
}

/// The mathematical value of a parse result.
pub open spec fn result_view(r: Result<Root, ParseError>) -> Result<RootView, ParseErrorView> {
    match r {
        Ok(root) => Ok(root@),
        Err(e) => Err(e@),
    }
}

/// What one token of the compact grammar does to the configuration built so
/// far: `LEVEL` sets the root default, `path` enables a module at TRACE, and
/// `path=LEVEL` enables a module at LEVEL.
pub open spec fn token_spec(rv: RootView, tok: Seq<char>) -> Result<RootView, ParseErrorView> {
    if tok.len() == 0 {
        Err(ParseErrorView::Spec)
    } else {
        let e1 = find_idx(tok, 0, '=');
        if e1 == tok.len() {
            let k = trim_spec(tok);
            if k.len() == 0 {
                Err(ParseErrorView::Spec)
            } else {
                match spec_level_from_text(k) {
                    Some(l) => Ok(RootView { level: Some(l), modules: rv.modules }),
                    None => Ok(
                        RootView {
                            level: rv.level,
                            modules: rv.modules.push(
                                ModuleView {
                                    path: k,
                                    level: Some(LogLevel::TRACE),
                                    lranges: None,
                                },
                            ),
                        },
                    ),
                }
            }
        } else if find_idx(tok, e1 + 1, '=') != tok.len() {
            Err(ParseErrorView::Spec)
        } else {
            let k = trim_spec(tok.subrange(0, e1));
            let v = trim_spec(tok.subrange(e1 + 1, tok.len() as int));
            if k.len() == 0 {
                Err(ParseErrorView::Spec)
            } else if v.len() == 0 {
                Err(ParseErrorView::Spec)
            } else {
                match spec_level_from_text(v) {
                    Some(l) => Ok(
                        RootView {
                            level: rv.level,
                            modules: rv.modules.push(
                                ModuleView { path: k, level: Some(l), lranges: None },
                            ),
                        },
                    ),
                    None => Err(ParseErrorView::Spec),
                }
            }
        }
    }
}

/// The compact grammar applied to the comma-separated tokens of `s[i..]`,
/// folded over the configuration built so far.
pub open spec fn parse_tokens_spec(s: Seq<char>, i: int, rv: RootView) -> Result<
    RootView,
    ParseErrorView,
>
    decreases s.len() - i,
    via check_parse_tokens_spec_decreases
{
    let e = find_idx(s, i, ',');
    match token_spec(rv, s.subrange(i, e)) {
        Err(err) => Err(err),
        Ok(rv2) => if e >= s.len() {
            Ok(rv2)
        } else {
            parse_tokens_spec(s, e + 1, rv2)
        },
    }
}

#[via_fn]
proof fn check_parse_tokens_spec_decreases(s: Seq<char>, i: int, rv: RootView) {
    if 0 <= i <= s.len() {
        lemma_find_props(s, i, ',');
    }
}

/// The whole grammar: a trimmed spec, empty rejected; a document form when it
/// starts with a brace, the token form otherwise.
pub open spec fn parse_spec(s: Seq<char>) -> Result<RootView, ParseErrorView> {
    let t = trim_spec(s);
    if t.len() == 0 {
        Err(ParseErrorView::Spec)
    } else if t[0] == '{' {
        json_config_spec(json_doc_of(t))
    } else {
        parse_tokens_spec(t, 0, RootView { level: None, modules: Seq::empty() })
    }
}

/// Applies one token to the configuration being built. Leaves the
/// configuration untouched on error.
pub fn parse_token(root: &mut Root, token: &str) -> (r: Result<(), ParseError>)
    ensures
        match token_spec(old(root)@, token@) {
            Ok(rv) => r is Ok && final(root)@ == rv,
            Err(e) => r matches Err(pe) && pe@ == e && final(root)@ == old(root)@,
        },
        root_wf(old(root)@) ==> root_wf(final(root)@),
{
    let n = token.unicode_len();
    if n == 0 {
        return Err(ParseError::Spec);
    }
    proof {
        lemma_find_props(token@, 0, '=');
    }
    let e1 = find_char(token, 0, '=');
    if e1 == n {
        let k = trim(token);
        if k.unicode_len() == 0 {
            return Err(ParseError::Spec);
        }
        match LogLevel::from_text(k) {
            Some(l) => {
                root.set_level(l);
                Ok(())
            },
            None => {
                root.push_module(Module::with_level(k, LogLevel::TRACE));
                Ok(())
            },
        }
    } else {
        proof {
            lemma_find_props(token@, e1 as int + 1, '=');
        }
        let e2 = find_char(token, e1 + 1, '=');
        if e2 != n {
            return Err(ParseError::Spec);
        }
        let kraw = token.substring_char(0, e1);
        let vraw = token.substring_char(e1 + 1, n);
        let k = trim(kraw);
        let v = trim(vraw);
        if k.unicode_len() == 0 {
            return Err(ParseError::Spec);
        }
        if v.unicode_len() == 0 {
            return Err(ParseError::Spec);
        }
        match LogLevel::from_text(v) {
            Some(l) => {
                root.push_module(Module::with_level(k, l));
                Ok(())
            },
            None => Err(ParseError::Spec),
        }
    }
}

/// Parses a bare level name, as supplied to the configuration entry points
/// outside any document: the name is trimmed and matched ignoring ASCII
/// case, and anything else is the `LogLevel` error.
pub fn parse_level(text: &str) -> (r: Result<LogLevel, ParseError>)
    ensures
        r == (match spec_level_from_text(trim_spec(text@)) {
            Some(l) => Ok::<LogLevel, ParseError>(l),
            None => Err::<LogLevel, ParseError>(ParseError::LogLevel),
        }),
{
    match LogLevel::from_text(trim(text)) {
        Some(l) => Ok(l),
        None => Err(ParseError::LogLevel),
    }
}

/// Parses a spec string: either the compact token grammar or, when the
/// trimmed text starts with `{`, the JSON document grammar. Never panics;
/// every failure is one of the defined error kinds, and an invalid spec
/// yields no configuration at all.
pub fn parse(input: &str) -> (r: Result<Root, ParseError>)
    ensures
        result_view(r) == parse_spec(input@),
        r matches Ok(root) ==> root_wf(root@),
{
    let t = trim(input);
    let n = t.unicode_len();
    if n == 0 {
        return Err(ParseError::Spec);
    }
    if t.get_char(0) == '{' {
        return parse_json_text(t);
    }
    let mut root = Root::new();
    let mut i: usize = 0;
    loop
        invariant
            0 <= i <= n,
            n == t@.len(),
            n > 0,
            t@ == trim_spec(input@),
            t@[0] != '{',
            root_wf(root@),
            parse_tokens_spec(t@, 0, RootView { level: None, modules: Seq::empty() })
                == parse_tokens_spec(t@, i as int, root@),
        decreases n - i,
    {
        proof {
            lemma_find_props(t@, i as int, ',');
        }
        let e = find_char(t, i, ',');
        let tok = t.substring_char(i, e);
        match parse_token(&mut root, tok) {
            Err(pe) => {
                return Err(pe);
            },
            Ok(()) => {
            },
        }
        if e == n {
            return Ok(root);
        }
        i = e + 1;
    }
}

/// One value of a decoded JSON document, holding exactly what the document
/// grammar examines: a number only as its `u64` reading, if it has one.
pub enum JsonValue {
    Null,
    Bool(bool),
    Num(Option<u64>),
    Str(String),
    Arr(Vec<JsonValue>),
    Obj(Vec<(String, JsonValue)>),
}

/// The value tree that decoding a text as JSON yields, if any: the decoded
/// document is a function of the text alone.
pub uninterp spec fn json_doc_of(s: Seq<char>) -> Option<JsonValue>;

#[verifier::external_type_specification]
#[verifier::external_body]
pub struct ExValue(serde_json::Value);

/// Conversion half of [`json_from_str`]: each serde_json value variant maps
/// to the [`JsonValue`] variant of the same shape, numbers read through
/// `Number::as_u64`, object entries in iteration order.
#[verifier::external_body]
fn from_value(v: &serde_json::Value) -> JsonValue {
    match v {
        serde_json::Value::Null => JsonValue::Null,
        serde_json::Value::Bool(b) => JsonValue::Bool(*b),
        serde_json::Value::Number(n) => JsonValue::Num(n.as_u64()),
        serde_json::Value::String(s) => JsonValue::Str(s.clone()),
        serde_json::Value::Array(a) => JsonValue::Arr(a.iter().map(from_value).collect()),
        serde_json::Value::Object(m) => JsonValue::Obj(
            m.iter().map(|(k, x)| (k.clone(), from_value(x))).collect(),
        ),
    }
}

/// Relies on serde_json::from_str::<Value>: it decodes valid JSON text into
/// its value tree and rejects anything else, and the outcome is a function of
/// the text alone.
#[verifier::external_body]
fn json_from_str(s: &str) -> (r: Option<JsonValue>)
    ensures
        r == json_doc_of(s@),
{
    match serde_json::from_str::<serde_json::Value>(s) {
        Ok(v) => Some(from_value(&v)),
        Err(_) => None,
    }
}

/// The first value bound to `key` in a decoded object's entries.
pub open spec fn obj_get(entries: Seq<(String, JsonValue)>, key: Seq<char>) -> Option<JsonValue>
    decreases entries.len(),
{
    if entries.len() == 0 {
        None
    } else if entries[0].0@ == key {
        Some(entries[0].1)
    } else {
        obj_get(entries.drop_first(), key)
    }
}

/// The root default level declared by a document's top-level entries.
pub open spec fn root_level_spec(entries: Seq<(String, JsonValue)>) -> Result<
    Option<LogLevel>,
    ParseErrorView,
> {
    match obj_get(entries, "level"@) {
        None => Ok(None),
        Some(JsonValue::Str(s)) => match spec_level_from_text(s@) {
            Some(l) => Ok(Some(l)),
            None => Err(ParseErrorView::Json(JsonError::RootLogLevel)),
        },
        Some(_) => Err(ParseErrorView::Json(JsonError::RootLogLevel)),
    }
}

/// One declared line span: a two-element array of numbers within `u32`.
pub open spec fn line_pair_spec(p: JsonValue) -> Result<(u32, u32), ParseErrorView> {
    match p {
        JsonValue::Arr(xs) => if xs@.len() != 2 {
            Err(ParseErrorView::Json(JsonError::LineRange))
        } else {
            match (xs@[0], xs@[1]) {
                (JsonValue::Num(Some(f)), JsonValue::Num(Some(t))) => if f <= u32::MAX && t
                    <= u32::MAX {
                    Ok((f as u32, t as u32))
                } else {
                    Err(ParseErrorView::Json(JsonError::LineRange))
                },
                _ => Err(ParseErrorView::Json(JsonError::LineRange)),
            }
        },
        _ => Err(ParseErrorView::Json(JsonError::LineRange)),
    }
}

/// The declared line spans of a module, first invalid span reported.
pub open spec fn line_pairs_spec(xs: Seq<JsonValue>) -> Result<Seq<(u32, u32)>, ParseErrorView>
    decreases xs.len(),
{
    if xs.len() == 0 {
        Ok(Seq::empty())
    } else {
        match line_pair_spec(xs[0]) {
            Err(e) => Err(e),
            Ok(p) => match line_pairs_spec(xs.drop_first()) {
                Ok(rest) => Ok(seq![p] + rest),
                Err(e) => Err(e),
            },
        }
    }
}

/// The level a module object declares, TRACE when it declares none.
pub open spec fn module_level_spec(fields: Seq<(String, JsonValue)>) -> Result<
    LogLevel,
    ParseErrorView,
> {
    match obj_get(fields, "level"@) {
        None => Ok(LogLevel::TRACE),
        Some(JsonValue::Str(s)) => match spec_level_from_text(s@) {
            Some(l) => Ok(l),
            None => Err(ParseErrorView::Json(JsonError::ModuleLogLevel)),
        },
        Some(_) => Err(ParseErrorView::Json(JsonError::ModuleLogLevel)),
    }
}

/// One module object: a required path; an optional level; optional line
/// spans, which when present make the override line-ranged, normalized
/// against the baseline TRACE.
pub open spec fn module_item_spec(item: JsonValue) -> Result<ModuleView, ParseErrorView> {
    match item {
        JsonValue::Obj(fields) => match obj_get(fields@, "path"@) {
            Some(JsonValue::Str(path)) => match module_level_spec(fields@) {
                Ok(level) => match obj_get(fields@, "lines"@) {
                    None => Ok(
                        ModuleView { path: path@, level: Some(level), lranges: None },
                    ),
                    Some(JsonValue::Arr(lines)) => if lines@.len() == 0 {
                        Err(ParseErrorView::Json(JsonError::LineRange))
                    } else {
                        match line_pairs_spec(lines@) {
                            Ok(pairs) => if pairs.len() > 0 && range_err(pairs, 0) is None {
                                Ok(
                                    ModuleView {
                                        path: path@,
                                        level: None,
                                        lranges: Some(normalize_spec(level, pairs)),
                                    },
                                )
                            } else {
                                Err(ParseErrorView::Json(JsonError::LineRange))
                            },
                            Err(e) => Err(e),
                        }
                    },
                    Some(_) => Err(ParseErrorView::Json(JsonError::LineRange)),
                },
                Err(e) => Err(e),
            },
            Some(_) => Err(ParseErrorView::Json(JsonError::Module)),
            None => Err(ParseErrorView::Json(JsonError::Module)),
        },
        _ => Err(ParseErrorView::Json(JsonError::Module)),
    }
}

/// The declared modules in order, first invalid module reported.
pub open spec fn modules_fold(items: Seq<JsonValue>) -> Result<Seq<ModuleView>, ParseErrorView>
    decreases items.len(),
{
    if items.len() == 0 {
        Ok(Seq::empty())
    } else {
        match module_item_spec(items[0]) {
            Ok(mv) => match modules_fold(items.drop_first()) {
                Ok(rest) => Ok(seq![mv] + rest),
                Err(e) => Err(e),
            },
            Err(e) => Err(e),
        }
    }
}

/// The module overrides a document's top-level entries declare: a non-empty
/// array of module objects when present, none otherwise.
pub open spec fn modules_spec(entries: Seq<(String, JsonValue)>) -> Result<
    Seq<ModuleView>,
    ParseErrorView,
> {
    match obj_get(entries, "modules"@) {
        None => Ok(Seq::empty()),
        Some(JsonValue::Arr(items)) => if items@.len() == 0 {
            Err(ParseErrorView::Json(JsonError::Module))
        } else {
            modules_fold(items@)
        },
        Some(_) => Err(ParseErrorView::Json(JsonError::Module)),
    }
}

/// The document grammar: a non-empty object whose optional `level` is the
/// root default and whose optional `modules` array declares the overrides.
pub open spec fn json_config_spec(doc: Option<JsonValue>) -> Result<RootView, ParseErrorView> {
    match doc {
        None => Err(ParseErrorView::Json(JsonError::Json)),
        Some(JsonValue::Obj(entries)) => if entries@.len() == 0 {
            Err(ParseErrorView::Json(JsonError::Root))
        } else {
            match root_level_spec(entries@) {
                Ok(level) => match modules_spec(entries@) {
                    Ok(mods) => Ok(RootView { level, modules: mods }),
                    Err(e) => Err(e),
                },
                Err(e) => Err(e),
            }
        },
        Some(_) => Err(ParseErrorView::Json(JsonError::Root)),
    }
}

/// The first value bound to `key` among an object's entries.
fn obj_find<'a>(entries: &'a Vec<(String, JsonValue)>, key: &str) -> (r: Option<&'a JsonValue>)
    ensures
        match r {
            Some(v) => obj_get(entries@, key@) == Some(*v),
            None => obj_get(entries@, key@) is None,
        },
{
    proof {
        assert(entries@.skip(0) =~= entries@);
    }
    let mut i: usize = 0;
    while i < entries.len()
        invariant
            0 <= i <= entries@.len(),
            obj_get(entries@, key@) == obj_get(entries@.skip(i as int), key@),
        decreases entries@.len() - i,
    {
        proof {
            assert(entries@.skip(i as int)[0] == entries@[i as int]);
            assert(entries@.skip(i as int).drop_first() =~= entries@.skip(i as int + 1));
        }
        if str_eq(entries[i].0.as_str(), key) {
            return Some(&entries[i].1);
        }
        i = i + 1;
    }
    proof {
        assert(entries@.skip(i as int).len() == 0);
    }
    None
}

/// One declared line span read from the document.
fn line_pair_of(p: &JsonValue) -> (r: Result<(u32, u32), ParseError>)
    ensures
        match r {
            Ok(pr) => line_pair_spec(*p) == Ok::<(u32, u32), ParseErrorView>(pr),
            Err(pe) => line_pair_spec(*p) == Err::<(u32, u32), ParseErrorView>(pe@),
        },
{
    match p {
        JsonValue::Arr(xs) => {
            if xs.len() != 2 {
                return Err(ParseError::Json(JsonError::LineRange));
            }
            let f = match &xs[0] {
                JsonValue::Num(Some(f)) => *f,
                _ => {
                    return Err(ParseError::Json(JsonError::LineRange));
                },
            };
            let t = match &xs[1] {
                JsonValue::Num(Some(t)) => *t,
                _ => {
                    return Err(ParseError::Json(JsonError::LineRange));
                },
            };
            if f <= u32::MAX as u64 && t <= u32::MAX as u64 {
                Ok((f as u32, t as u32))
            } else {
                Err(ParseError::Json(JsonError::LineRange))
            }
        },
        _ => Err(ParseError::Json(JsonError::LineRange)),
    }
}

/// One module object read from the document.
fn module_of_item(item: &JsonValue) -> (r: Result<Module, ParseError>)
    ensures
        match r {
            Ok(m) => module_item_spec(*item) == Ok::<ModuleView, ParseErrorView>(m@) && module_wf(
                m@,
            ),
            Err(pe) => module_item_spec(*item) == Err::<ModuleView, ParseErrorView>(pe@),
        },
{
    let fields = match item {
        JsonValue::Obj(fields) => fields,
        _ => {
            return Err(ParseError::Json(JsonError::Module));
        },
    };
    let path = match obj_find(fields, "path") {
        Some(JsonValue::Str(path)) => path,
        Some(_) => {
            return Err(ParseError::Json(JsonError::Module));
        },
        None => {
            return Err(ParseError::Json(JsonError::Module));
        },
    };
    let level = match obj_find(fields, "level") {
        None => LogLevel::TRACE,
        Some(JsonValue::Str(s)) => match LogLevel::from_text(s.as_str()) {
            Some(l) => l,
            None => {
                return Err(ParseError::Json(JsonError::ModuleLogLevel));
            },
        },
        Some(_) => {
            return Err(ParseError::Json(JsonError::ModuleLogLevel));
        },
    };
    let lines = match obj_find(fields, "lines") {
        None => {
            return Ok(Module::with_level(path.as_str(), level));
        },
        Some(JsonValue::Arr(lines)) => lines,
        Some(_) => {
            return Err(ParseError::Json(JsonError::LineRange));
        },
    };
    if lines.len() == 0 {
        return Err(ParseError::Json(JsonError::LineRange));
    }
    let mut pairs: Vec<(u32, u32)> = Vec::new();
    let mut j: usize = 0;
    proof {
        assert(lines@.skip(0) =~= lines@);
    }
    while j < lines.len()
        invariant
            0 <= j <= lines@.len(),
            pairs@.len() == j,
            *item == JsonValue::Obj(*fields),
            obj_get(fields@, "path"@) == Some(JsonValue::Str(*path)),
            module_level_spec(fields@) == Ok::<LogLevel, ParseErrorView>(level),
            obj_get(fields@, "lines"@) == Some(JsonValue::Arr(*lines)),
            lines@.len() > 0,
            line_pairs_spec(lines@) == (match line_pairs_spec(lines@.skip(j as int)) {
                Ok(rest) => Ok::<Seq<(u32, u32)>, ParseErrorView>(pairs@ + rest),
                Err(e) => Err::<Seq<(u32, u32)>, ParseErrorView>(e),
            }),
        decreases lines@.len() - j,
    {
        proof {
            assert(lines@.skip(j as int)[0] == lines@[j as int]);
            assert(lines@.skip(j as int).drop_first() =~= lines@.skip(j as int + 1));
        }
        let pr = match line_pair_of(&lines[j]) {
            Ok(pr) => pr,
            Err(pe) => {
                proof {
                    assert(line_pairs_spec(lines@.skip(j as int)) == Err::<
                        Seq<(u32, u32)>,
                        ParseErrorView,
                    >(pe@));
                    assert(line_pairs_spec(lines@) == Err::<Seq<(u32, u32)>, ParseErrorView>(
                        pe@,
                    ));
                    assert(module_item_spec(*item) == Err::<ModuleView, ParseErrorView>(pe@));
                }
                return Err(pe);
            },
        };
        let ghost old_pairs = pairs@;
        pairs.push(pr);
        proof {
            if line_pairs_spec(lines@.skip(j as int + 1)) is Ok {
                let rest = line_pairs_spec(lines@.skip(j as int + 1))->Ok_0;
                assert(old_pairs + (seq![pr] + rest) =~= pairs@ + rest);
            }
        }
        j = j + 1;
    }
    proof {
        assert(lines@.skip(j as int).len() == 0);
        assert(pairs@ + Seq::<(u32, u32)>::empty() =~= pairs@);
    }
    match Module::with_lranges(path.as_str(), level, &pairs) {
        Ok(m) => Ok(m),
        Err(_) => Err(ParseError::Json(JsonError::LineRange)),
    }
}

/// A decoded document validated into a configuration model.
pub fn config_of_json(v: &JsonValue) -> (r: Result<Root, ParseError>)
    ensures
        result_view(r) == json_config_spec(Some(*v)),
        r matches Ok(root) ==> root_wf(root@),
{
    let entries = match v {
        JsonValue::Obj(entries) => entries,
        _ => {
            return Err(ParseError::Json(JsonError::Root));
        },
    };
    if entries.len() == 0 {
        return Err(ParseError::Json(JsonError::Root));
    }
    let mut root = Root::new();
    match obj_find(entries, "level") {
        None => {
        },
        Some(JsonValue::Str(s)) => match LogLevel::from_text(s.as_str()) {
            Some(l) => {
                root.set_level(l);
            },
            None => {
                return Err(ParseError::Json(JsonError::RootLogLevel));
            },
        },
        Some(_) => {
            return Err(ParseError::Json(JsonError::RootLogLevel));
        },
    }
    let ghost declared_level = root@.level;
    proof {
        assert(root_level_spec(entries@) == Ok::<Option<LogLevel>, ParseErrorView>(
            declared_level,
        ));
    }
    let items = match obj_find(entries, "modules") {
        None => {
            proof {
                assert(root@.modules =~= Seq::<ModuleView>::empty());
            }
            return Ok(root);
        },
        Some(JsonValue::Arr(items)) => items,
        Some(_) => {
            return Err(ParseError::Json(JsonError::Module));
        },
    };
    if items.len() == 0 {
        return Err(ParseError::Json(JsonError::Module));
    }
    let mut i: usize = 0;
    proof {
        assert(items@.skip(0) =~= items@);
        assert(root@.modules =~= Seq::<ModuleView>::empty());
    }
    while i < items.len()
        invariant
            0 <= i <= items@.len(),
            root@.level == declared_level,
            root_wf(root@),
            *v == JsonValue::Obj(*entries),
            entries@.len() > 0,
            root_level_spec(entries@) == Ok::<Option<LogLevel>, ParseErrorView>(declared_level),
            obj_get(entries@, "modules"@) == Some(JsonValue::Arr(*items)),
            items@.len() > 0,
            modules_fold(items@) == (match modules_fold(items@.skip(i as int)) {
                Ok(rest) => Ok::<Seq<ModuleView>, ParseErrorView>(root@.modules + rest),
                Err(e) => Err::<Seq<ModuleView>, ParseErrorView>(e),
            }),
        decreases items@.len() - i,
    {
        proof {
            assert(items@.skip(i as int)[0] == items@[i as int]);
            assert(items@.skip(i as int).drop_first() =~= items@.skip(i as int + 1));
        }
        let m = match module_of_item(&items[i]) {
            Ok(m) => m,
            Err(pe) => {
                proof {
                    assert(modules_fold(items@.skip(i as int)) == Err::<
                        Seq<ModuleView>,
                        ParseErrorView,
                    >(pe@));
                    assert(modules_fold(items@) == Err::<Seq<ModuleView>, ParseErrorView>(pe@));
                    assert(modules_spec(entries@) == Err::<Seq<ModuleView>, ParseErrorView>(
                        pe@,
                    ));
                    assert(json_config_spec(Some(*v)) == Err::<RootView, ParseErrorView>(pe@));
                }
                return Err(pe);
            },
        };
        let ghost old_modules = root@.modules;
        root.push_module(m);
        proof {
            if modules_fold(items@.skip(i as int + 1)) is Ok {
                let rest = modules_fold(items@.skip(i as int + 1))->Ok_0;
                assert(old_modules + (seq![m@] + rest) =~= root@.modules + rest);
            }
        }
        i = i + 1;
    }
    proof {
        assert(items@.skip(i as int).len() == 0);
        assert(root@.modules + Seq::<ModuleView>::empty() =~= root@.modules);
    }
    Ok(root)
}

/// Parses the document form of a spec.
fn parse_json_text(t: &str) -> (r: Result<Root, ParseError>)
    ensures
        result_view(r) == json_config_spec(json_doc_of(t@)),
        r matches Ok(root) ==> root_wf(root@),
{
    match json_from_str(t) {
        None => Err(ParseError::Json(JsonError::Json)),
        Some(v) => config_of_json(&v),
    }
}

} // verus!
