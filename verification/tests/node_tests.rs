use ssgen::node::PageTree;
use ssgen::diag::LogEntry;
use ssgen::text::chars_of_str;

/// Ensure a tree can be created and renders as nothing.
#[test]
fn test_empty() {
    let t = PageTree::new();
    assert_eq!(t.render_string(0), "");
}

/// Test the four different display formats for a node.
#[test]
fn test_pagenode_display() {
    let mut noname_nochild = PageTree::new();
    noname_nochild.add_content(0, &chars_of_str("some content"));
    assert_eq!(noname_nochild.render_string(0), "some content");

    let mut noname_child = PageTree::new();
    let c = noname_child.fresh_node(0);
    noname_child.add_child(0, c);
    noname_child.add_content(c, &chars_of_str("some content"));
    assert_eq!(noname_child.render_string(0), "some content");

    let mut name_nochild = PageTree::new();
    name_nochild.set_name(0, &chars_of_str("somename"));
    name_nochild.add_metadata(0, chars_of_str("class"), chars_of_str("someclass"));
    assert_eq!(name_nochild.render_string(0), r#"<somename class="someclass"/>"#);

    let mut name_child = PageTree::new();
    let c2 = name_child.fresh_node(0);
    name_child.add_child(0, c2);
    name_child.add_content(c2, &chars_of_str("some content"));
    name_child.set_name(0, &chars_of_str("somename"));
    name_child.add_metadata(0, chars_of_str("class"), chars_of_str("someclass"));
    name_child.add_metadata(0, chars_of_str("style"), chars_of_str("somestyle"));
    assert_eq!(
        name_child.render_string(0),
        r#"<somename class="someclass" style="somestyle">some content</somename>"#
    );
}

/// Test string parsing.
#[test]
fn test_parse_string() {
    let mut node = PageTree::new();
    node.register_var(0, &chars_of_str("x"), &chars_of_str("69"));
    node.add_content(0, &chars_of_str("The value of x is {x}"));
    assert_eq!(node.render_string(0), "The value of x is 69");

    let mut node = PageTree::new();
    node.register_var(0, &chars_of_str("x"), &chars_of_str("69"));
    node.register_var(0, &chars_of_str("{x}"), &chars_of_str("funny number"));
    node.add_content(0, &chars_of_str("The value of 69 is {69}"));
    assert_eq!(node.render_string(0), "The value of 69 is funny number");

    let mut node = PageTree::new();
    node.register_var(0, &chars_of_str("x"), &chars_of_str("69"));
    node.register_var(0, &chars_of_str("{x}"), &chars_of_str("funny number"));
    node.register_var(0, &chars_of_str("{69}"), &chars_of_str("funny number {x}"));
    node.add_content(0, &chars_of_str("The value of funny number is {funny number}"));
    assert_eq!(node.render_string(0), "The value of funny number is funny number 69");

    let mut node = PageTree::new();
    node.register_var(0, &chars_of_str("x"), &chars_of_str("y"));
    node.register_var(0, &chars_of_str("y"), &chars_of_str("z"));
    node.add_content(0, &chars_of_str("{{x}}"));
    assert_eq!(node.render_string(0), "z");

    let mut node = PageTree::new();
    node.add_content(0, &chars_of_str("\\{novar\\}"));
    assert_eq!(node.render_string(0), "{novar}");

    let mut node = PageTree::new();
    node.add_content(0, &chars_of_str("{undefined variable}"));
    assert_eq!(node.render_string(0), "UNDEFINED");

    let mut node = PageTree::new();
    node.register_var(0, &chars_of_str("x"), &chars_of_str("y"));
    node.set_name(0, &chars_of_str("name"));
    let child = node.fresh_node(0);
    node.add_child(0, child);
    node.add_content(child, &chars_of_str("{x}"));
    assert_eq!(node.render_string(0), "<name>y</name>");
}

/// Scope chain: an ancestor's binding is visible below unless a nearer
/// scope shadows it; the nearest definition wins.
#[test]
fn test_scope_chain_shadowing() {
    let mut t = PageTree::new();
    t.register_var(0, &chars_of_str("x"), &chars_of_str("one"));
    t.register_var(0, &chars_of_str("y"), &chars_of_str("rooty"));
    let mid = t.fresh_node(0);
    t.add_child(0, mid);
    t.register_var(mid, &chars_of_str("x"), &chars_of_str("two"));
    let leaf = t.fresh_node(mid);
    t.add_child(mid, leaf);
    // nearest definition of x wins
    assert_eq!(t.get_var(leaf, &chars_of_str("x")), chars_of_str("two"));
    // an unshadowed ancestor binding is visible to all descendants
    assert_eq!(t.get_var(leaf, &chars_of_str("y")), chars_of_str("rooty"));
    assert_eq!(t.get_var(mid, &chars_of_str("x")), chars_of_str("two"));
    assert_eq!(t.get_var(0, &chars_of_str("x")), chars_of_str("one"));
    assert!(t.log.is_empty());
}

/// An undefined variable yields exactly the placeholder and one warning.
#[test]
fn test_undefined_placeholder() {
    let mut t = PageTree::new();
    let r = t.get_var(0, &chars_of_str("nosuch"));
    assert_eq!(r, chars_of_str("UNDEFINED"));
    assert_eq!(t.log.len(), 1);
    assert!(matches!(&t.log[0], LogEntry::UndefinedVar(k) if *k == chars_of_str("nosuch")));
    assert!(t.log[0].warning());
}

/// Escaping round trip: escaped braces never resolve as variables.
#[test]
fn test_escape_roundtrip() {
    let mut t = PageTree::new();
    t.register_var(0, &chars_of_str("x"), &chars_of_str("should not appear"));
    let r = t.parse_string(0, &chars_of_str("\\{x\\}"));
    assert_eq!(r, chars_of_str("{x}"));
    assert!(t.log.is_empty());
}

/// An unterminated reference stops the scan and logs one error.
#[test]
fn test_unclosed_reference() {
    let mut t = PageTree::new();
    t.add_content(0, &chars_of_str("before{never closed"));
    assert_eq!(t.render_string(0), "before");
    assert_eq!(t.log.len(), 1);
    assert!(matches!(&t.log[0], LogEntry::UnclosedRef(_)));
    assert!(!t.log[0].warning());
}
