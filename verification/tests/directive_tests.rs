use ssgen::parser::Parser;
use ssgen::diag::LogEntry;
use ssgen::yaml::{Yaml, value_tostring};
use ssgen::text::chars_of_str;

/// Ensure the parser can handle the loop directive.
#[test]
fn test_foreach() {
    let mut p = Parser::new();
    p.parse_yaml(
        r#"
!FOREACH [
  [x],
  "<div>{x}</div>",
  [text1],
  [text2],
  [text3],
]
"#,
    );
    assert_eq!(p.render_page(), "<div>text1</div><div>text2</div><div>text3</div>");

    let mut p = Parser::new();
    p.parse_yaml(
        r#"
!FOREACH [
  [x, y, z],
  div: '{x}{y}{z}',
  [text1, abc, 123],
  [text2, def, 456],
  [text3, ghi, 789],
]
---
- !FOREACH [[invalid,],]
- !FOREACH [[nonamatching, keys, length,], '', [a,],]
- !FOREACH not a sequence
- !FOREACH [[x], '', not a sequence,]
"#,
    );
    assert_eq!(p.render_page(), "<div>text1abc123</div><div>text2def456</div><div>text3ghi789</div>");
}

/// Ensure the parser can handle the conditional directive. An undefined
/// variable in the condition renders as the (non-empty) placeholder, so the
/// second conditional takes its then-branch.
#[test]
fn test_if() {
    let mut p = Parser::new();
    p.parse_yaml(
        r#"
- !DEF [x, y]
- !IF ['{x}', z]
- !IF ['{y}', x, q]
- !IF [
    '',
    [se, qu, en, ce],
    {p: text,},
  ]
- !IF [a, b, c, d, e, f, g]
- !IF not a sequence
"#,
    );
    assert_eq!(p.render_page(), "zx<p>text</p>");
}

/// Ensure the parser can handle the definition directive.
#[test]
fn test_def() {
    let mut p = Parser::new();
    p.parse_yaml(
        r#"
- !DEF [x, y]
- '{x}'
- a:
    - !DEF [x, z]
    - '{x}'
- [!DEF [x, w], '{x}']
- '{x}'
- !DEF [incorrect, size, arguments, aaaaaaa,]
- !DEF this is not a sequence
"#,
    );
    assert_eq!(p.render_page(), "y<a>z</a>wy");
}

#[test]
fn test_value_tostring() {
    // primitives
    assert_eq!(value_tostring(&Yaml::Null), chars_of_str("NULL"));
    assert_eq!(value_tostring(&Yaml::Bool(true)), chars_of_str("true"));
    assert_eq!(value_tostring(&Yaml::Bool(false)), chars_of_str("false"));
    assert_eq!(value_tostring(&Yaml::Num(chars_of_str("1234"))), chars_of_str("1234"));
    assert_eq!(value_tostring(&Yaml::Num(chars_of_str("1234.56"))), chars_of_str("1234.56"));
    assert_eq!(value_tostring(&Yaml::Str(chars_of_str("asdf"))), chars_of_str(r#""asdf""#));

    // mapping
    let m = Yaml::Dict(vec![
        (Yaml::Str(chars_of_str("a")), Yaml::Str(chars_of_str("b"))),
        (Yaml::Num(chars_of_str("1")), Yaml::Str(chars_of_str("cdefg"))),
        (
            Yaml::Str(chars_of_str("h")),
            Yaml::List(vec![
                Yaml::Str(chars_of_str("i")),
                Yaml::Str(chars_of_str("j")),
                Yaml::Str(chars_of_str("k")),
            ]),
        ),
    ]);
    assert_eq!(value_tostring(&m), chars_of_str(r#"{"a":"b",1:"cdefg","h":["i","j","k",],}"#));

    // tagged
    let t = Yaml::Tagged(chars_of_str("!TAG"), Box::new(Yaml::Str(chars_of_str("value"))));
    assert_eq!(value_tostring(&t), chars_of_str(r#"!TAG "value""#));

    // sequence
    let mut v: Vec<Yaml> = Vec::new();
    v.push(Yaml::Null);
    v.push(Yaml::Num(chars_of_str("123")));
    v.push(Yaml::Str(chars_of_str("abc")));
    v.push(Yaml::Bool(true));
    let inner = Yaml::List(vec![
        Yaml::Null,
        Yaml::Num(chars_of_str("123")),
        Yaml::Str(chars_of_str("abc")),
        Yaml::Bool(true),
    ]);
    v.push(inner);
    v.push(m);
    v.push(t);
    assert_eq!(
        value_tostring(&Yaml::List(v)),
        chars_of_str(
            r#"[NULL,123,"abc",true,[NULL,123,"abc",true,],{"a":"b",1:"cdefg","h":["i","j","k",],},!TAG "value",]"#
        )
    );
}

/// A row of the wrong length invalidates the whole loop directive: no child
/// at all, and exactly one bounded error.
#[test]
fn test_foreach_row_mismatch() {
    let mut p = Parser::new();
    p.parse_yaml(
        r#"
!FOREACH [
  [a, b],
  "<p>{a}{b}</p>",
  [first, second],
  [onlyone],
]
"#,
    );
    assert_eq!(p.render_page(), "");
    assert_eq!(p.tree.log.len(), 1);
    assert!(matches!(&p.tree.log[0], LogEntry::InvalidDirective(tag, _) if *tag == chars_of_str("!FOREACH")));
}

/// Conditional truthiness: any non-empty text is true, including `0` and
/// `false`; only the empty text is false.
#[test]
fn test_if_truthiness() {
    let mut p = Parser::new();
    p.parse_yaml(
        r#"
- !IF ['0', zero]
- !IF ['false', fal]
- !IF ['', never, empty]
"#,
    );
    assert_eq!(p.render_page(), "zerofalempty");
}

/// The definition directive logs on a malformed argument.
#[test]
fn test_def_invalid_logs() {
    let mut p = Parser::new();
    p.parse_yaml("!DEF plain\n");
    assert_eq!(p.render_page(), "");
    assert_eq!(p.tree.log.len(), 1);
    assert!(matches!(&p.tree.log[0], LogEntry::InvalidDirective(tag, _) if *tag == chars_of_str("!DEF")));

    let mut p = Parser::new();
    p.parse_yaml("!IF plain\n");
    assert_eq!(p.tree.log.len(), 1);
    assert!(matches!(&p.tree.log[0], LogEntry::InvalidDirective(tag, _) if *tag == chars_of_str("!IF")));
}

/// The shell-command directive is present but disabled: it logs an error and
/// contributes nothing.
#[test]
fn test_shell_command_disabled() {
    let mut p = Parser::new();
    p.parse_yaml("!SHELL_CMD \"echo hello\"\n");
    assert_eq!(p.render_page(), "");
    assert_eq!(p.tree.log.len(), 1);
    assert!(matches!(&p.tree.log[0], LogEntry::ShellDisabled(_)));
    assert!(!p.tree.log[0].warning());
}

/// Indirection: `x -> y`, `y -> z`, and `{{x}}` yields `z`.
#[test]
fn test_indirection() {
    let mut p = Parser::new();
    p.parse_yaml(
        r#"
- !DEF [x, y]
- !DEF [y, z]
- '{{x}}'
"#,
    );
    assert_eq!(p.render_page(), "z");
}
