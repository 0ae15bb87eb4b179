use woodpecker::config::{Module, Root};
use woodpecker::levels::LogLevel;
use woodpecker::parser::{parse, JsonError, ParseError};

#[test]
fn test_spec_invalid() {
    assert_eq!(Err(ParseError::Spec), parse(""));
    assert_eq!(Err(ParseError::Spec), parse(","));
    assert_eq!(Err(ParseError::Spec), parse("="));
    assert_eq!(Err(ParseError::Spec), parse("foo="));
    assert_eq!(Err(ParseError::Spec), parse("=error"));
    assert_eq!(Err(ParseError::Spec), parse("foo,"));
    assert_eq!(Err(ParseError::Spec), parse(",foo"));
    assert_eq!(Err(ParseError::Spec), parse("foo=bar"));
}

#[test]
fn test_spec_global() {
    let expect = Root::with_level(LogLevel::ERROR);
    assert_eq!(Ok(expect), parse("error"));
}

#[test]
fn test_spec_module() {
    let expect = Root::new().module(Module::with_level("foo", LogLevel::ERROR));
    assert_eq!(Ok(expect), parse("foo=error"));

    let expect = Root::new().module(Module::with_level("foo", LogLevel::TRACE));
    assert_eq!(Ok(expect), parse("foo"));
}

#[test]
fn test_spec_combined() {
    let expect = Root::with_level(LogLevel::CRITICAL)
        .module(Module::with_level("foo", LogLevel::TRACE))
        .module(Module::with_level("bar", LogLevel::TRACE))
        .module(Module::with_level("qux", LogLevel::ERROR));
    assert_eq!(Ok(expect), parse("critical,foo,bar,qux=error"));
}

#[test]
fn test_spec_json() {
    let expect = Root::with_level(LogLevel::CRITICAL)
        .module(Module::with_level("foo", LogLevel::TRACE))
        .module(Module::with_level("bar", LogLevel::TRACE))
        .module(
            Module::with_lranges("bar", LogLevel::ERROR, &vec![(10, 100), (120, 130)]).unwrap(),
        );
    assert_eq!(
        Ok(expect),
        parse(
            r#"{
                  "level": "critical",
                  "modules": [
                      {
                          "path": "foo"
                      },
                      {
                          "path": "bar"
                      },
                      {
                          "path": "bar",
                          "level": "error",
                          "lines": [
                              [10, 100], [120, 130]
                          ]
                      }
                  ]
              }"#
        )
    );
}

#[test]
fn test_spec_json_invalid() {
    assert_eq!(Err(ParseError::Json(JsonError::Json)), parse("{"));

    assert_eq!(Err(ParseError::Json(JsonError::Root)), parse(r#"{}"#));

    assert_eq!(
        Err(ParseError::Json(JsonError::RootLogLevel)),
        parse(r#"{"level": "foo"}"#)
    );

    assert_eq!(
        Err(ParseError::Json(JsonError::Module)),
        parse(r#"{"modules": {}}"#)
    );
    assert_eq!(
        Err(ParseError::Json(JsonError::Module)),
        parse(r#"{"modules": []}"#)
    );
    assert_eq!(
        Err(ParseError::Json(JsonError::Module)),
        parse(r#"{"modules": [{"level": "critical"}]}"#)
    );

    assert_eq!(
        Err(ParseError::Json(JsonError::ModuleLogLevel)),
        parse(r#"{"modules": [{"path": "bar", "level": "foo"}]}"#)
    );

    assert_eq!(
        Err(ParseError::Json(JsonError::LineRange)),
        parse(r#"{"modules": [{"path": "bar", "lines": {}}]}"#)
    );
    assert_eq!(
        Err(ParseError::Json(JsonError::LineRange)),
        parse(r#"{"modules": [{"path": "bar", "lines": []}]}"#)
    );
    assert_eq!(
        Err(ParseError::Json(JsonError::LineRange)),
        parse(r#"{"modules": [{"path": "bar", "lines": [[]]}]}"#)
    );
    assert_eq!(
        Err(ParseError::Json(JsonError::LineRange)),
        parse(r#"{"modules": [{"path": "bar", "lines": [[1]]}]}"#)
    );
    assert_eq!(
        Err(ParseError::Json(JsonError::LineRange)),
        parse(r#"{"modules": [{"path": "bar", "lines": [[1, 10, 20]]}]}"#)
    );
    assert_eq!(
        Err(ParseError::Json(JsonError::LineRange)),
        parse(r#"{"modules": [{"path": "bar", "lines": [[10, 1]]}]}"#)
    );
}

#[test]
fn test_spec_whitespace_and_case() {
    let expect = Root::with_level(LogLevel::WARN);
    assert_eq!(Ok(expect), parse("  WaRn  "));

    let expect = Root::new().module(Module::with_level("foo", LogLevel::NOTICE));
    assert_eq!(Ok(expect), parse(" foo = Notice "));
}

#[test]
fn test_spec_token_level_names() {
    for (text, level) in [
        ("trace", LogLevel::TRACE),
        ("debug", LogLevel::DEBUG),
        ("verbose", LogLevel::VERBOSE),
        ("info", LogLevel::INFO),
        ("notice", LogLevel::NOTICE),
        ("warn", LogLevel::WARN),
        ("error", LogLevel::ERROR),
        ("critical", LogLevel::CRITICAL),
    ] {
        assert_eq!(Ok(Root::with_level(level)), parse(text));
    }
}

#[test]
fn test_spec_double_equals() {
    assert_eq!(Err(ParseError::Spec), parse("a=b=c"));
    assert_eq!(Err(ParseError::Spec), parse("a==error"));
}

#[test]
fn test_spec_json_overlapping_lines() {
    assert_eq!(
        Err(ParseError::Json(JsonError::LineRange)),
        parse(r#"{"modules": [{"path": "bar", "lines": [[10, 100], [50, 60]]}]}"#)
    );
}

#[test]
fn test_spec_json_line_out_of_u32() {
    assert_eq!(
        Err(ParseError::Json(JsonError::LineRange)),
        parse(r#"{"modules": [{"path": "bar", "lines": [[1, 4294967296]]}]}"#)
    );
}

#[test]
fn test_spec_json_non_object_root() {
    assert_eq!(Err(ParseError::Json(JsonError::Root)), parse("{ }"));
    assert_eq!(Err(ParseError::Json(JsonError::Json)), parse("{]"));
}
