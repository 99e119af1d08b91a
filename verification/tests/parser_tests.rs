use ssgen::parser::Parser;
use ssgen::diag::LogEntry;
use std::sync::Arc;
use indicatif::ProgressBar;

/// Ensure the parser can handle basic value types.
#[test]
fn test_simple() {
    let mut p = Parser::new();
    p.set_root_dir("/tmp/");
    let ok = p.parse_yaml(
        r#"
string
---
","
---
true
---
","
---
123456789
---
NULL
"#,
    );
    assert!(ok);
    assert_eq!(p.render_page(), "string,true,123456789");
}

/// Ensure the parser can handle sequences.
#[test]
fn test_sequence() {
    let mut p = Parser::new();
    p.parse_yaml(
        r#"
- se
- qu
- en
- ce
"#,
    );
    assert_eq!(p.render_page(), "sequence");

    let mut p = Parser::new();
    p.parse_yaml(
        r#"
- [sub,se]
- qu
- en
- ce
"#,
    );
    assert_eq!(p.render_page(), "subsequence");

    let mut p = Parser::new();
    p.parse_yaml(
        r#"
- mixed value types
- " "
---
- [here, [is, 1], nested, sequence]
- 54321
---
- true
"#,
    );
    assert_eq!(p.render_page(), "mixed value types hereis1nestedsequence54321true");

    let mut p = Parser::new();
    p.parse_yaml(
        r#"
- \{ escaped brace
- \\ escaped backslash
- \\\\ escaped double backslash
- \\{ unclosed variable
"#,
    );
    assert_eq!(
        p.render_page(),
        r#"{ escaped brace\ escaped backslash\\ escaped double backslash\"#
    );
}

/// Ensure the parser can handle basic value types (same stream, via the
/// stand-alone parser entry).
#[test]
fn parser_test_simple() {
    let mut p = Parser::new();
    p.parse_yaml(
        r#"
string
---
","
---
true
---
","
---
123456789
---
NULL
"#,
    );
    assert_eq!(p.render_page(), "string,true,123456789");
}

/// Ensure miscellaneous pieces work together: an unknown directive is a
/// warning and a no-op, with a progress signal attached.
#[test]
fn test_misc() {
    let mut p = Parser::new();
    let pb = Arc::new(ProgressBar::new(10));
    p.add_progressbar(pb.clone());
    p.parse_yaml(
        r#"
!INVALIDDIRECTIVE =D
"#,
    );
    assert_eq!(p.render_page(), "");
    assert_eq!(p.tree.log.len(), 1);
    assert!(matches!(&p.tree.log[0], LogEntry::UnknownDirective(_)));
    assert!(p.tree.log[0].warning());
}

/// Ensure the parser can handle mappings.
#[test]
fn test_map() {
    let mut p = Parser::new();
    p.parse_yaml(
        r#"
key: value
"#,
    );
    assert_eq!(p.render_page(), r#"<key>value</key>"#);

    let mut p = Parser::new();
    p.parse_yaml(
        r#"
key:
  value: data
"#,
    );
    assert_eq!(p.render_page(), r#"<key><value>data</value></key>"#);

    let mut p = Parser::new();
    p.parse_yaml(
        r#"
key:
  _meta: data
"#,
    );
    assert_eq!(p.render_page(), r#"<key meta="data"/>"#);

    let mut p = Parser::new();
    p.parse_yaml(
        r#"
key:
  - content
  - _meta: data
  - value: data
  - morecontent
"#,
    );
    assert_eq!(p.render_page(), r#"<key meta="data">content<value>data</value>morecontent</key>"#);

    let mut p = Parser::new();
    p.parse_yaml(
        r#"
html:
  head:
    meta:
      _charset: UTF-8
  body:
    p: test
"#,
    );
    assert_eq!(
        p.render_page(),
        r#"<html><head><meta charset="UTF-8"/></head><body><p>test</p></body></html>"#
    );
}

/// Ensure the parser can handle mappings (stand-alone parser entry).
#[test]
fn parser_test_map() {
    let mut p = Parser::new();
    p.parse_yaml(
        r#"
key: value
"#,
    );
    assert_eq!(p.render_page(), r#"<key>value</key>"#);
}

/// A malformed document stream is reported and leaves the page unchanged.
#[test]
fn test_parse_failure() {
    let mut p = Parser::new();
    let ok = p.parse_yaml(
        r#"
bad: yaml
error: a: b: c: d: e
"#,
    );
    assert!(!ok);
    assert_eq!(p.render_page(), "");
    assert_eq!(p.tree.log.len(), 1);
    assert!(matches!(&p.tree.log[0], LogEntry::ParseFailed(_)));
}

/// Bindings handed to a fresh parser are visible as ancestor scope.
#[test]
fn test_new_with_vars() {
    let vars = vec![(
        "site".chars().collect::<Vec<char>>(),
        "my site".chars().collect::<Vec<char>>(),
    )];
    let mut p = Parser::new_with_vars(vars);
    p.parse_yaml(
        r#"
title: "{site}"
"#,
    );
    assert_eq!(p.render_page(), "<title>my site</title>");
}

/// A sequence element that is a mapping collapses into the parent as
/// attributes only when every key resolves to a `_` name; otherwise it is an
/// ordinary child.
#[test]
fn test_sequence_metadata_collapse() {
    let mut p = Parser::new();
    p.parse_yaml(
        r#"
key:
  - _m: x
  - content
"#,
    );
    assert_eq!(p.render_page(), r#"<key m="x">content</key>"#);

    let mut p = Parser::new();
    p.parse_yaml(
        r#"
key:
  - {_m: x, n: y}
"#,
    );
    assert_eq!(p.render_page(), r#"<key><n>y</n></key>"#);
}

/// Page-level definitions shadow inherited bindings; unshadowed ones stay
/// visible — the nearest definition wins through the whole pipeline.
#[test]
fn test_meta_shadowing() {
    let vars = vec![
        ("site".chars().collect::<Vec<char>>(), "inherited".chars().collect::<Vec<char>>()),
        ("other".chars().collect::<Vec<char>>(), "kept".chars().collect::<Vec<char>>()),
    ];
    let mut p = Parser::new_with_vars(vars);
    p.parse_yaml(
        r#"
- !DEF [site, local]
- '{site} {other}'
"#,
    );
    assert_eq!(p.render_page(), "local kept");
}
