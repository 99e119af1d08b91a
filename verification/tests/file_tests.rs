use ssgen::parser::Parser;
use ssgen::diag::LogEntry;
use ssgen::text::chars_of_str;

/// Ensure that combining directives does not cause issues: a definition
/// holding a loop, a reference to it, and a nested file insertion.
#[test]
fn test_combined_snapshot() {
    let mut p = Parser::new();
    p.add_file(
        "index.page",
        r#"
- !DEF [
    x,
    !FOREACH [
      [y],
      "{y}",
      ["a"],
      ["b"]
    ]
  ]
- p: "{x}"
- !INCLUDE include.block
"#,
    );
    p.add_file(
        "include.block",
        r#"
- p:
    !IF ['{x}', '{x}', "nothing"]
- '{x}': asdf
- !DEF [var2, thisshouldntdoathing]
"#,
    );
    p.parse_yaml(
        r#"
!INCLUDE /index.page
"#,
    );
    assert_eq!(p.render_page(), "<p>ab</p><p>ab</p><ab>asdf</ab>");
}

/// File insertion: missing files and traversal out of the root are logged
/// no-ops; valid absolute, relative, and nested-relative paths insert the
/// parsed file; the raw form inserts the text verbatim.
#[test]
fn test_insert_paths() {
    // a file that does not exist
    let mut p = Parser::new();
    p.parse_yaml(
        r#"
!INCLUDE /nonexistent_file.page
"#,
    );
    assert_eq!(p.render_page(), "");
    assert!(p.tree.log.iter().any(|e| matches!(e, LogEntry::MissingFile(_))));

    // a file that must not be reachable
    let mut p = Parser::new();
    p.add_file("valid_file.page", "p: content");
    p.parse_yaml(
        r#"
!INCLUDE /../inaccessible_file.page
"#,
    );
    assert_eq!(p.render_page(), "");
    assert!(p.tree.log.iter().any(|e| matches!(e, LogEntry::PathOutsideRoot(_))));

    // valid files, through every path form
    let mut p = Parser::new();
    p.add_file("valid_file.page", "p: content");
    p.add_file(
        "inc/another_valid_file.page",
        "- !INCLUDE /valid_file.page\n- !INCLUDE ../valid_file.page",
    );
    p.parse_yaml(
        r#"
- !INCLUDE
- !INCLUDE /valid_file.page
- sep
- !INCLUDE valid_file.page
- !INCLUDE inc/another_valid_file.page
- !INCLUDE_RAW valid_file.page
"#,
    );
    assert_eq!(
        p.render_page(),
        "<p>content</p>sep<p>content</p><p>content</p><p>content</p>p: content"
    );
}

/// A traversal path never reads the file: the page renders the same whether
/// or not something exists at the escaping location.
#[test]
fn test_insert_sandbox_blocks_traversal() {
    let mut with_file = Parser::new();
    with_file.add_file("../secret.page", "p: secret");
    with_file.parse_yaml("!INCLUDE /../secret.page\n");

    let mut without_file = Parser::new();
    without_file.parse_yaml("!INCLUDE /../secret.page\n");

    assert_eq!(with_file.render_page(), "");
    assert_eq!(with_file.render_page(), without_file.render_page());
    assert!(with_file.tree.log.iter().any(|e| matches!(e, LogEntry::PathOutsideRoot(_))));
}

/// A cyclic insertion fails fast instead of recursing forever.
#[test]
fn test_insert_cycle() {
    let mut p = Parser::new();
    p.add_file("a.page", "- before\n- !INCLUDE /b.page\n");
    p.add_file("b.page", "- !INCLUDE /a.page\n- after\n");
    p.parse_yaml("!INCLUDE /a.page\n");
    assert_eq!(p.render_page(), "beforeafter");
    assert!(p.tree.log.iter().any(|e| matches!(e, LogEntry::CycleDetected(_))));
}

/// An empty path argument is rejected as such.
#[test]
fn test_blank_path() {
    let mut p = Parser::new();
    p.parse_yaml("!INCLUDE ''\n");
    assert_eq!(p.render_page(), "");
    assert!(p.tree.log.iter().any(|e| matches!(e, LogEntry::BlankPath)));
}

/// An inserted file that fails to parse is reported and inserts nothing.
#[test]
fn test_insert_parse_failure() {
    let mut p = Parser::new();
    p.add_file("broken.page", "bad: yaml\nerror: a: b: c: d: e\n");
    p.parse_yaml("!INCLUDE /broken.page\n");
    assert_eq!(p.render_page(), "");
    assert!(p.tree.log.iter().any(|e| matches!(e, LogEntry::ParseFailed(_))));
}

/// Copy actions: a missing source and a double-slash path are logged no-ops;
/// valid sources are recorded under their own normalized relative path, so
/// the mirrored destination stays inside the output root, and the recorded
/// path names exactly the snapshot file whose bytes are to be mirrored.
#[test]
fn test_copy_actions() {
    // copy a file that does not exist
    let mut p = Parser::new();
    p.parse_yaml(
        r#"
!COPY "/somefilethatdoesnotexist"
"#,
    );
    assert!(p.tree.copies.is_empty());
    assert!(p.tree.log.iter().any(|e| matches!(e, LogEntry::MissingFile(_))));

    // copy a file that must not be accessed
    let mut p = Parser::new();
    p.parse_yaml(
        r#"
!COPY "//etc/shadow"
"#,
    );
    assert!(p.tree.copies.is_empty());
    assert!(p.tree.log.iter().any(|e| matches!(e, LogEntry::PathOutsideRoot(_))));

    // copy files that are valid
    let mut p = Parser::new();
    p.add_file("valid.file", "text");
    p.add_file("somedir/valid2.file", "moretext");
    p.parse_yaml(
        r#"
- !COPY "/valid.file"
- !COPY "somedir/valid2.file"
"#,
    );
    assert!(p.tree.log.is_empty());
    assert_eq!(p.tree.copies.len(), 2);
    assert_eq!(p.tree.copies[0], chars_of_str("valid.file"));
    assert_eq!(p.tree.copies[1], chars_of_str("somedir/valid2.file"));
    // the recorded path names a snapshot entry; mirroring it copies those bytes
    assert!(p.files.iter().any(|f| f.0 == p.tree.copies[0] && f.1 == chars_of_str("text")));
}

/// Relative paths resolve against the current file's directory once a root
/// directory is set.
#[test]
fn test_root_dir_relative() {
    let mut p = Parser::new();
    p.add_file("sub/part.page", "p: here");
    p.set_root_dir("sub");
    p.parse_yaml("!INCLUDE part.page\n");
    assert_eq!(p.render_page(), "<p>here</p>");
}

/// Output paths mirror the input-relative page path with an html extension.
#[test]
fn test_output_page_path() {
    let out = ssgen::paths::output_page_path(&chars_of_str("dir/index.page"));
    assert_eq!(out, chars_of_str("dir/index.html"));
    let out = ssgen::paths::output_page_path(&chars_of_str("noext"));
    assert_eq!(out, chars_of_str("noext.html"));
    let out = ssgen::paths::output_page_path(&chars_of_str("a.b/c"));
    assert_eq!(out, chars_of_str("a.b/c.html"));
}

/// The rendered document opens with the doctype line.
#[test]
fn test_render_document() {
    let mut p = ssgen::parser::Parser::new();
    p.parse_yaml("p: hi\n");
    assert_eq!(p.render_document(), "<!DOCTYPE html>\n<p>hi</p>");
}
