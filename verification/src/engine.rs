//! The directive evaluator and the value-to-tree adapter.
//!
//! `apply_value` walks a document value into a target node: scalars append
//! interpolated content, lists fan out into children (with the `_`-key
//! metadata convention), mappings become named children or attributes, and
//! tagged values dispatch to a directive. Directives never unwind: a bad
//! shape logs and contributes nothing. File directives resolve their path in
//! the sandbox against an immutable snapshot of the input tree, and file
//! insertion tracks the in-progress set so that a cyclic insertion fails
//! fast instead of recursing forever.
//!
//! The whole evaluation is specified by the `apply_value` family of spec
//! functions below; every executable function here is proved to produce
//! exactly the tree, diagnostics, and copy actions that the specification
//! folds out.

use vstd::prelude::*;
use serde_yaml::Value;
use crate::diag::{LogEntry, LogV};
use crate::node::{NodeV, PageTree, TreeV, blank_node, wf};
use crate::interp::{st_add_content, st_register_var, st_set_name};
use crate::render::render_node;
use crate::paths::{resolve_path, join};
use crate::yaml::{Yaml, yaml_size, list_size, pairs_size, vts};
use crate::yaml::{lemma_yaml_size_pos, lemma_list_size_elem, lemma_list_size_skip,
    lemma_pairs_size_elem, lemma_pairs_size_skip};

verus! {

/// The input snapshot: relative path and text of each file under the root.
pub type FilesV = Seq<(Seq<char>, Seq<char>)>;

/// The directory context: segments relative to the input root.
pub type DirV = Option<Seq<Seq<char>>>;

/// The set of files currently being inserted, newest last.
pub type InProgV = Seq<Seq<char>>;

/// Recursion budget for file insertion: files not yet being inserted.
pub open spec fn fuel(files: FilesV, ipr: InProgV) -> nat {
    if files.len() >= ipr.len() {
        (files.len() - ipr.len()) as nat
    } else {
        0
    }
}

/// Index of the first snapshot entry with path `p`.
pub open spec fn file_find(files: FilesV, p: Seq<char>) -> Option<int>
    decreases files.len(),
{
    if files.len() == 0 {
        None
    } else if files[0].0 == p {
        Some(0)
    } else {
        match file_find(files.skip(1), p) {
            Some(j) => Some(j + 1),
            None => None,
        }
    }
}

/// A found file lies inside the snapshot and has the looked-up path.
pub proof fn lemma_file_find(files: FilesV, p: Seq<char>)
    ensures
        match file_find(files, p) {
            Some(j) => 0 <= j < files.len() && files[j].0 == p,
            None => true,
        },
    decreases files.len(),
{
    if files.len() != 0 && files[0].0 != p {
        lemma_file_find(files.skip(1), p);
    }
}

/// Whether `p` occurs in a path list.
pub open spec fn in_list(xs: InProgV, p: Seq<char>) -> bool {
    exists|i: int| 0 <= i < xs.len() && xs[i] == p
}

/// A bounded rendering for the loop directive's diagnostic.
pub open spec fn trunc100(s: Seq<char>) -> Seq<char> {
    if s.len() > 100 {
        s.take(99) + seq!['.', '.', '.']
    } else {
        s
    }
}

/// State with one more diagnostic.
pub open spec fn st_log(t: TreeV, e: LogV) -> TreeV {
    TreeV { log: t.log.push(e), ..t }
}

/// State with a fresh blank node parented to `parent`.
pub open spec fn st_alloc(t: TreeV, parent: int) -> TreeV {
    TreeV { nodes: t.nodes.push(blank_node(Some(parent))), ..t }
}

/// State with `child` appended to `parent`'s child list.
pub open spec fn st_attach(t: TreeV, parent: int, child: int) -> TreeV {
    TreeV {
        nodes: t.nodes.update(
            parent,
            NodeV { children: t.nodes[parent].children.push(child), ..t.nodes[parent] },
        ),
        ..t
    }
}

/// State with one attribute pair appended to node `i`.
pub open spec fn st_meta(t: TreeV, i: int, k: Seq<char>, v: Seq<char>) -> TreeV {
    TreeV {
        nodes: t.nodes.update(i, NodeV { metadata: t.nodes[i].metadata.push((k, v)), ..t.nodes[i] }),
        ..t
    }
}

/// State with text appended verbatim to node `i`'s content.
pub open spec fn st_content_raw(t: TreeV, i: int, s: Seq<char>) -> TreeV {
    TreeV {
        nodes: t.nodes.update(i, NodeV { content: t.nodes[i].content + s, ..t.nodes[i] }),
        ..t
    }
}

/// State with one more copy action.
pub open spec fn st_copy(t: TreeV, p: Seq<char>) -> TreeV {
    TreeV { copies: t.copies.push(p), ..t }
}

/// What the documents of a text are, as serde_yaml parses them; `None` when
/// the text is not a well-formed document stream. The result depends on the
/// text alone.
pub uninterp spec fn docs_of(s: Seq<char>) -> Option<Seq<Yaml>>;

#[verifier::external_type_specification]
#[verifier::external_body]
pub struct ExValue(Value);

/// Relies on serde_yaml's Value: each variant of the parsed value moves into
/// the engine's own value type; numbers keep their displayed text, tags their
/// `!`-prefixed text, mappings their order.
#[verifier::external_body]
fn yaml_of_value(v: &Value) -> Yaml {
    match v {
        Value::Null => Yaml::Null,
        Value::Bool(b) => Yaml::Bool(*b),
        Value::Number(n) => Yaml::Num(n.to_string().chars().collect()),
        Value::String(s) => Yaml::Str(s.chars().collect()),
        Value::Sequence(xs) => Yaml::List(xs.iter().map(yaml_of_value).collect()),
        Value::Mapping(m) => Yaml::Dict(
            m.iter().map(|(k, w)| (yaml_of_value(k), yaml_of_value(w))).collect(),
        ),
        Value::Tagged(t) => Yaml::Tagged(
            t.tag.to_string().chars().collect(),
            Box::new(yaml_of_value(&t.value)),
        ),
    }
}

/// Relies on serde_yaml's Deserializer: a text is a stream of documents, each
/// deserialized into a Value, or fails to parse; the outcome depends on the
/// text alone, which `docs_of` names.
#[verifier::external_body]
pub fn parse_documents(s: &str) -> (r: Option<Vec<Yaml>>)
    ensures
        match (r, docs_of(s@)) {
            (Some(v), Some(d)) => v@ == d,
            (None, None) => true,
            _ => false,
        },
{
    let mut out: Vec<Yaml> = Vec::new();
    for doc in serde_yaml::Deserializer::from_str(s) {
        match <Value as serde::Deserialize>::deserialize(doc) {
            Ok(v) => out.push(yaml_of_value(&v)),
            Err(_) => return None,
        }
    }
    Some(out)
}

/// Shape check for the loop directive: a key list and same-length rows.
pub open spec fn row_ok(y: Yaml, n: nat) -> bool {
    match y {
        Yaml::List(r) => r@.len() == n,
        _ => false,
    }
}

/// Every row of `xs[2..]` is a list as long as the key list.
pub open spec fn rows_ok(xs: Seq<Yaml>, n: nat) -> bool {
    forall|i: int| 2 <= i < xs.len() ==> row_ok(#[trigger] xs[i], n)
}

/// The loop directive's argument shape: `[keys, template, row, row, ...]`.
pub open spec fn foreach_ok(v: Yaml) -> bool {
    match v {
        Yaml::List(xs) => {
            &&& xs@.len() >= 3
            &&& match xs@[0] {
                Yaml::List(ks) => rows_ok(xs@, ks@.len()),
                _ => false,
            }
        },
        _ => false,
    }
}

/// Every evaluated key starts with `_`.
pub open spec fn all_underscore(keys: Seq<Seq<char>>) -> bool {
    forall|i: int| 0 <= i < keys.len() ==> (#[trigger] keys[i]).len() > 0 && keys[i][0] == '_'
}

/// Adapter: fold value `y` into node `target`.
pub open spec fn apply_value(
    files: FilesV,
    dir: DirV,
    ipr: InProgV,
    t: TreeV,
    target: int,
    y: Yaml,
) -> TreeV
    decreases fuel(files, ipr), yaml_size(y), 0int, 0int,
        via apply_value_dec
{
    match y {
        Yaml::Null => t,
        Yaml::Bool(b) => st_add_content(t, target, if b { "true"@ } else { "false"@ }),
        Yaml::Num(s) => st_add_content(t, target, s@),
        Yaml::Str(s) => st_add_content(t, target, s@),
        Yaml::List(xs) => apply_elems(files, dir, ipr, t, target, xs@),
        Yaml::Dict(ps) => apply_pairs(files, dir, ipr, t, target, ps@),
        Yaml::Tagged(tag, b) => apply_tagged(files, dir, ipr, t, target, tag@, *b),
    }
}

#[via_fn]
proof fn apply_value_dec(files: FilesV, dir: DirV, ipr: InProgV, t: TreeV, target: int, y: Yaml) {
    match y {
        Yaml::List(xs) => {},
        Yaml::Dict(ps) => {},
        Yaml::Tagged(tag, b) => {
            lemma_yaml_size_pos(*b);
        },
        _ => {},
    }
}

/// Evaluate an argument: render `y` through a throwaway node under `target`.
pub open spec fn eval_arg(
    files: FilesV,
    dir: DirV,
    ipr: InProgV,
    t: TreeV,
    target: int,
    y: Yaml,
) -> (TreeV, Seq<char>)
    decreases fuel(files, ipr), yaml_size(y), 1int, 0int,
{
    let idx = t.nodes.len() as int;
    let t1 = st_alloc(t, target);
    let t2 = apply_value(files, dir, ipr, t1, idx, y);
    (t2, render_node(t2.nodes, idx))
}

/// Fold the elements of a list into `target`: tagged values dispatch,
/// all-`_` mappings collapse into attributes of `target`, anything else
/// becomes a nameless child.
pub open spec fn apply_elems(
    files: FilesV,
    dir: DirV,
    ipr: InProgV,
    t: TreeV,
    target: int,
    xs: Seq<Yaml>,
) -> TreeV
    decreases fuel(files, ipr), list_size(xs), 5int, 0int,
        via apply_elems_dec
{
    if xs.len() == 0 {
        t
    } else {
        let t2 = match xs[0] {
            Yaml::Tagged(tag, b) => apply_tagged(files, dir, ipr, t, target, tag@, *b),
            Yaml::Dict(ps) => if ps@.len() > 0 {
                let (t1, keys) = eval_pair_keys(files, dir, ipr, t, target, ps@);
                if all_underscore(keys) {
                    eval_meta_values(files, dir, ipr, t1, target, ps@, keys)
                } else {
                    plain_elem(files, dir, ipr, t1, target, xs[0])
                }
            } else {
                plain_elem(files, dir, ipr, t, target, xs[0])
            },
            _ => plain_elem(files, dir, ipr, t, target, xs[0]),
        };
        apply_elems(files, dir, ipr, t2, target, xs.skip(1))
    }
}

#[via_fn]
proof fn apply_elems_dec(
    files: FilesV,
    dir: DirV,
    ipr: InProgV,
    t: TreeV,
    target: int,
    xs: Seq<Yaml>,
) {
    if xs.len() != 0 {
        lemma_list_size_elem(xs, 0);
        lemma_yaml_size_pos(xs[0]);
        lemma_list_size_skip(xs, 1);
        assert(list_size(xs) == yaml_size(xs[0]) + list_size(xs.skip(1)));
        match xs[0] {
            Yaml::Tagged(tag, b) => {
                lemma_yaml_size_pos(*b);
            },
            _ => {},
        }
    }
}

/// An ordinary list element: a nameless child of `target`.
pub open spec fn plain_elem(
    files: FilesV,
    dir: DirV,
    ipr: InProgV,
    t: TreeV,
    target: int,
    e: Yaml,
) -> TreeV
    decreases fuel(files, ipr), yaml_size(e), 2int, 1int,
{
    let child = t.nodes.len() as int;
    let t1 = st_attach(st_alloc(t, target), target, child);
    apply_value(files, dir, ipr, t1, child, e)
}

/// Evaluate the keys of a mapping, in order, through throwaway nodes.
pub open spec fn eval_pair_keys(
    files: FilesV,
    dir: DirV,
    ipr: InProgV,
    t: TreeV,
    target: int,
    ps: Seq<(Yaml, Yaml)>,
) -> (TreeV, Seq<Seq<char>>)
    decreases fuel(files, ipr), pairs_size(ps), 5int, 0int,
        via eval_pair_keys_dec
{
    if ps.len() == 0 {
        (t, Seq::empty())
    } else {
        let (t1, k) = eval_arg(files, dir, ipr, t, target, ps[0].0);
        let (t2, rest) = eval_pair_keys(files, dir, ipr, t1, target, ps.skip(1));
        (t2, seq![k] + rest)
    }
}

#[via_fn]
proof fn eval_pair_keys_dec(
    files: FilesV,
    dir: DirV,
    ipr: InProgV,
    t: TreeV,
    target: int,
    ps: Seq<(Yaml, Yaml)>,
) {
    if ps.len() != 0 {
        lemma_pairs_size_elem(ps, 0);
        lemma_yaml_size_pos(ps[0].0);
        lemma_yaml_size_pos(ps[0].1);
        lemma_pairs_size_skip(ps, 1);
        assert(pairs_size(ps) == yaml_size(ps[0].0) + yaml_size(ps[0].1) + pairs_size(ps.skip(1)));
    }
}

/// Evaluate the values of an all-`_` mapping and attach each pair as an
/// attribute of `target` (key without its underscore).
pub open spec fn eval_meta_values(
    files: FilesV,
    dir: DirV,
    ipr: InProgV,
    t: TreeV,
    target: int,
    ps: Seq<(Yaml, Yaml)>,
    keys: Seq<Seq<char>>,
) -> TreeV
    decreases fuel(files, ipr), pairs_size(ps), 5int, 1int,
        via eval_meta_values_dec
{
    if ps.len() == 0 || keys.len() == 0 {
        t
    } else {
        let (t1, v) = eval_arg(files, dir, ipr, t, target, ps[0].1);
        let t2 = st_meta(t1, target, keys[0].skip(1), v);
        eval_meta_values(files, dir, ipr, t2, target, ps.skip(1), keys.skip(1))
    }
}

#[via_fn]
proof fn eval_meta_values_dec(
    files: FilesV,
    dir: DirV,
    ipr: InProgV,
    t: TreeV,
    target: int,
    ps: Seq<(Yaml, Yaml)>,
    keys: Seq<Seq<char>>,
) {
    if !(ps.len() == 0 || keys.len() == 0) {
        lemma_pairs_size_elem(ps, 0);
        lemma_yaml_size_pos(ps[0].0);
        lemma_yaml_size_pos(ps[0].1);
        lemma_pairs_size_skip(ps, 1);
        assert(pairs_size(ps) == yaml_size(ps[0].0) + yaml_size(ps[0].1) + pairs_size(ps.skip(1)));
    }
}

/// Fold the pairs of a mapping into `target`: `_` keys become attributes,
/// the rest become named children.
pub open spec fn apply_pairs(
    files: FilesV,
    dir: DirV,
    ipr: InProgV,
    t: TreeV,
    target: int,
    ps: Seq<(Yaml, Yaml)>,
) -> TreeV
    decreases fuel(files, ipr), pairs_size(ps), 5int, 0int,
        via apply_pairs_dec
{
    if ps.len() == 0 {
        t
    } else {
        let (t1, k) = eval_arg(files, dir, ipr, t, target, ps[0].0);
        let t2 = if k.len() > 0 && k[0] == '_' {
            let (ta, v) = eval_arg(files, dir, ipr, t1, target, ps[0].1);
            st_meta(ta, target, k.skip(1), v)
        } else {
            let child = t1.nodes.len() as int;
            let ta = st_set_name(st_alloc(t1, target), child, k);
            let tb = apply_value(files, dir, ipr, ta, child, ps[0].1);
            st_attach(tb, target, child)
        };
        apply_pairs(files, dir, ipr, t2, target, ps.skip(1))
    }
}

#[via_fn]
proof fn apply_pairs_dec(
    files: FilesV,
    dir: DirV,
    ipr: InProgV,
    t: TreeV,
    target: int,
    ps: Seq<(Yaml, Yaml)>,
) {
    if ps.len() != 0 {
        lemma_pairs_size_elem(ps, 0);
        lemma_yaml_size_pos(ps[0].0);
        lemma_yaml_size_pos(ps[0].1);
        lemma_pairs_size_skip(ps, 1);
        assert(pairs_size(ps) == yaml_size(ps[0].0) + yaml_size(ps[0].1) + pairs_size(ps.skip(1)));
    }
}

/// Dispatch a tagged value by its tag text.
pub open spec fn apply_tagged(
    files: FilesV,
    dir: DirV,
    ipr: InProgV,
    t: TreeV,
    target: int,
    tag: Seq<char>,
    v: Yaml,
) -> TreeV
    decreases fuel(files, ipr), yaml_size(v), 4int, 0int,
{
    if tag == "!DEF"@ {
        dir_def(files, dir, ipr, t, target, v)
    } else if tag == "!IF"@ {
        dir_if(files, dir, ipr, t, target, v)
    } else if tag == "!FOREACH"@ {
        dir_foreach(files, dir, ipr, t, target, v)
    } else if tag == "!INCLUDE"@ || tag == "!INCLUDE_RAW"@ {
        dir_insert(files, dir, ipr, t, target, v, tag == "!INCLUDE_RAW"@)
    } else if tag == "!COPY"@ || tag == "!COPY_DIR"@ {
        dir_copy(files, dir, ipr, t, target, v)
    } else if tag == "!SHELL_CMD"@ {
        st_log(t, LogV::ShellDisabled(vts(v)))
    } else {
        st_log(t, LogV::UnknownDirective(tag))
    }
}

/// The variable-definition directive: `[key, value]`, both rendered through
/// throwaway nodes (with no directory context), then bound in `target`'s
/// scope; any other shape logs an error.
pub open spec fn dir_def(
    files: FilesV,
    dir: DirV,
    ipr: InProgV,
    t: TreeV,
    target: int,
    v: Yaml,
) -> TreeV
    decreases fuel(files, ipr), yaml_size(v), 3int, 0int,
        via dir_def_dec
{
    match v {
        Yaml::List(xs) => if xs@.len() == 2 {
            let (t1, k) = eval_arg(files, None, ipr, t, target, xs@[0]);
            let (t2, vv) = eval_arg(files, None, ipr, t1, target, xs@[1]);
            st_register_var(t2, target, k, vv)
        } else {
            st_log(t, LogV::InvalidDirective("!DEF"@, vts(v)))
        },
        _ => st_log(t, LogV::InvalidDirective("!DEF"@, vts(v))),
    }
}

#[via_fn]
proof fn dir_def_dec(files: FilesV, dir: DirV, ipr: InProgV, t: TreeV, target: int, v: Yaml) {
    match v {
        Yaml::List(xs) => {
            if xs@.len() == 2 {
                lemma_list_size_elem(xs@, 0);
                lemma_list_size_elem(xs@, 1);
                lemma_yaml_size_pos(xs@[0]);
                lemma_yaml_size_pos(xs@[1]);
            }
        },
        _ => {},
    }
}

/// The conditional directive: `[condition, then, else?]`. The condition is
/// rendered; any non-empty text is true. Any other shape logs an error.
pub open spec fn dir_if(
    files: FilesV,
    dir: DirV,
    ipr: InProgV,
    t: TreeV,
    target: int,
    v: Yaml,
) -> TreeV
    decreases fuel(files, ipr), yaml_size(v), 3int, 0int,
        via dir_if_dec
{
    match v {
        Yaml::List(xs) => if 2 <= xs@.len() <= 3 {
            let (t1, c) = eval_arg(files, dir, ipr, t, target, xs@[0]);
            if c.len() > 0 {
                apply_value(files, dir, ipr, t1, target, xs@[1])
            } else if xs@.len() == 3 {
                apply_value(files, dir, ipr, t1, target, xs@[2])
            } else {
                t1
            }
        } else {
            st_log(t, LogV::InvalidDirective("!IF"@, vts(v)))
        },
        _ => st_log(t, LogV::InvalidDirective("!IF"@, vts(v))),
    }
}

#[via_fn]
proof fn dir_if_dec(files: FilesV, dir: DirV, ipr: InProgV, t: TreeV, target: int, v: Yaml) {
    match v {
        Yaml::List(xs) => {
            if 2 <= xs@.len() <= 3 {
                lemma_list_size_elem(xs@, 0);
                lemma_list_size_elem(xs@, 1);
                lemma_yaml_size_pos(xs@[0]);
                if xs@.len() == 3 {
                    lemma_list_size_elem(xs@, 2);
                }
            }
        },
        _ => {},
    }
}

/// The loop directive: `[keys, template, row, ...]`. If any row is not a
/// list exactly as long as the key list, the whole directive is invalid and
/// logs one error; otherwise each row makes one child with the row's values
/// bound to the keys, and the template is folded into it.
pub open spec fn dir_foreach(
    files: FilesV,
    dir: DirV,
    ipr: InProgV,
    t: TreeV,
    target: int,
    v: Yaml,
) -> TreeV
    decreases fuel(files, ipr), yaml_size(v), 3int, 0int,
        via dir_foreach_dec
{
    if foreach_ok(v) {
        let xs = v->List_0;
        let ks = xs@[0]->List_0;
        let (t1, keys) = eval_list_args(files, dir, ipr, t, target, ks@);
        foreach_rows(files, dir, ipr, t1, target, xs@.skip(2), xs@[1], keys)
    } else {
        st_log(t, LogV::InvalidDirective("!FOREACH"@, trunc100(vts(v))))
    }
}

#[via_fn]
proof fn dir_foreach_dec(files: FilesV, dir: DirV, ipr: InProgV, t: TreeV, target: int, v: Yaml) {
    if foreach_ok(v) {
        let xs = v->List_0;
        let ks = xs@[0]->List_0;
        lemma_list_size_elem(xs@, 0);
        lemma_list_size_elem(xs@, 1);
        lemma_yaml_size_pos(xs@[0]);
        lemma_yaml_size_pos(xs@[1]);
        assert(list_size(xs@) == yaml_size(xs@[0]) + list_size(xs@.skip(1)));
        assert(xs@.skip(1).len() > 0);
        assert(xs@.skip(1)[0] == xs@[1]);
        assert(xs@.skip(1).skip(1) =~= xs@.skip(2));
        assert(list_size(xs@.skip(1)) == yaml_size(xs@[1]) + list_size(xs@.skip(2)));
    }
}

/// Render each key name of the loop directive, in order.
pub open spec fn eval_list_args(
    files: FilesV,
    dir: DirV,
    ipr: InProgV,
    t: TreeV,
    target: int,
    ks: Seq<Yaml>,
) -> (TreeV, Seq<Seq<char>>)
    decreases fuel(files, ipr), list_size(ks), 5int, 0int,
        via eval_list_args_dec
{
    if ks.len() == 0 {
        (t, Seq::empty())
    } else {
        let (t1, k) = eval_arg(files, dir, ipr, t, target, ks[0]);
        let (t2, rest) = eval_list_args(files, dir, ipr, t1, target, ks.skip(1));
        (t2, seq![k] + rest)
    }
}

#[via_fn]
proof fn eval_list_args_dec(
    files: FilesV,
    dir: DirV,
    ipr: InProgV,
    t: TreeV,
    target: int,
    ks: Seq<Yaml>,
) {
    if ks.len() != 0 {
        lemma_list_size_elem(ks, 0);
        lemma_yaml_size_pos(ks[0]);
        lemma_list_size_skip(ks, 1);
        assert(list_size(ks) == yaml_size(ks[0]) + list_size(ks.skip(1)));
    }
}

/// One child per row: bind the row's values to the keys, then fold the
/// template into the child.
pub open spec fn foreach_rows(
    files: FilesV,
    dir: DirV,
    ipr: InProgV,
    t: TreeV,
    target: int,
    rows: Seq<Yaml>,
    template: Yaml,
    keys: Seq<Seq<char>>,
) -> TreeV
    decreases fuel(files, ipr), list_size(rows) + yaml_size(template), 2int, 0int,
        via foreach_rows_dec
{
    if rows.len() == 0 {
        t
    } else {
        let child = t.nodes.len() as int;
        let t1 = st_attach(st_alloc(t, target), target, child);
        let relems = match rows[0] {
            Yaml::List(r) => r@,
            _ => Seq::empty(),
        };
        let t2 = bind_row(files, dir, ipr, t1, child, relems, keys);
        let t3 = apply_value(files, dir, ipr, t2, child, template);
        foreach_rows(files, dir, ipr, t3, target, rows.skip(1), template, keys)
    }
}

#[via_fn]
proof fn foreach_rows_dec(
    files: FilesV,
    dir: DirV,
    ipr: InProgV,
    t: TreeV,
    target: int,
    rows: Seq<Yaml>,
    template: Yaml,
    keys: Seq<Seq<char>>,
) {
    if rows.len() != 0 {
        lemma_list_size_elem(rows, 0);
        lemma_yaml_size_pos(rows[0]);
        lemma_list_size_skip(rows, 1);
        assert(list_size(rows) == yaml_size(rows[0]) + list_size(rows.skip(1)));
        match rows[0] {
            Yaml::List(r) => {
                assert(decreases_to!(rows[0] => r));
            },
            _ => {},
        }
    }
}

/// Bind each value of a row to its key, in order, on the row's child.
pub open spec fn bind_row(
    files: FilesV,
    dir: DirV,
    ipr: InProgV,
    t: TreeV,
    child: int,
    relems: Seq<Yaml>,
    keys: Seq<Seq<char>>,
) -> TreeV
    decreases fuel(files, ipr), list_size(relems), 5int, 0int,
        via bind_row_dec
{
    if relems.len() == 0 || keys.len() == 0 {
        t
    } else {
        let (t1, vtext) = eval_arg(files, dir, ipr, t, child, relems[0]);
        let t2 = st_register_var(t1, child, keys[0], vtext);
        bind_row(files, dir, ipr, t2, child, relems.skip(1), keys.skip(1))
    }
}

#[via_fn]
proof fn bind_row_dec(
    files: FilesV,
    dir: DirV,
    ipr: InProgV,
    t: TreeV,
    child: int,
    relems: Seq<Yaml>,
    keys: Seq<Seq<char>>,
) {
    if !(relems.len() == 0 || keys.len() == 0) {
        lemma_list_size_elem(relems, 0);
        lemma_yaml_size_pos(relems[0]);
        lemma_list_size_skip(relems, 1);
        assert(list_size(relems) == yaml_size(relems[0]) + list_size(relems.skip(1)));
    }
}

/// The copy directive: resolve the rendered path in the sandbox; if the file
/// exists in the snapshot, record a copy action mirroring it onto the output
/// root; otherwise log and contribute nothing.
pub open spec fn dir_copy(
    files: FilesV,
    dir: DirV,
    ipr: InProgV,
    t: TreeV,
    target: int,
    v: Yaml,
) -> TreeV
    decreases fuel(files, ipr), yaml_size(v), 3int, 0int,
{
    let (t1, s) = eval_arg(files, dir, ipr, t, target, v);
    match resolve_path(dir, s) {
        Err(e) => st_log(st_log(t1, e), LogV::InvalidDirective("!COPY"@, vts(v))),
        Ok(comps) => {
            let joined = join(comps);
            match file_find(files, joined) {
                None => st_log(
                    st_log(t1, LogV::MissingFile(joined)),
                    LogV::InvalidDirective("!COPY"@, vts(v)),
                ),
                Some(_) => st_copy(t1, joined),
            }
        },
    }
}

/// The insertion directive: resolve the rendered path; on success read the
/// snapshot text into a fresh child — verbatim for the raw form, else as a
/// document stream folded into the child with the file's directory as the
/// new context. A failure logs and contributes nothing; a path already being
/// inserted fails fast as a cycle.
pub open spec fn dir_insert(
    files: FilesV,
    dir: DirV,
    ipr: InProgV,
    t: TreeV,
    target: int,
    v: Yaml,
    raw: bool,
) -> TreeV
    decreases fuel(files, ipr), yaml_size(v), 3int, 0int,
        via dir_insert_dec
{
    let (t1, s) = eval_arg(files, dir, ipr, t, target, v);
    let idx = t1.nodes.len() as int;
    let t2 = st_alloc(t1, target);
    match resolve_path(dir, s) {
        Err(e) => st_log(st_log(t2, e), LogV::InvalidDirective("!INCLUDE"@, vts(v))),
        Ok(comps) => {
            let joined = join(comps);
            match file_find(files, joined) {
                None => st_log(
                    st_log(t2, LogV::MissingFile(joined)),
                    LogV::InvalidDirective("!INCLUDE"@, vts(v)),
                ),
                Some(fi) => {
                    if in_list(ipr, joined) || ipr.len() >= files.len() {
                        st_log(t2, LogV::CycleDetected(joined))
                    } else if raw {
                        st_attach(st_content_raw(t2, idx, files[fi].1), target, idx)
                    } else {
                        match docs_of(files[fi].1) {
                            None => st_log(t2, LogV::ParseFailed(joined)),
                            Some(docs) => {
                                let newdir = if comps.len() > 0 {
                                    comps.drop_last()
                                } else {
                                    comps
                                };
                                let t3 = apply_docs(
                                    files,
                                    Some(newdir),
                                    ipr.push(joined),
                                    t2,
                                    idx,
                                    docs,
                                );
                                st_attach(t3, target, idx)
                            },
                        }
                    }
                },
            }
        },
    }
}

#[via_fn]
proof fn dir_insert_dec(
    files: FilesV,
    dir: DirV,
    ipr: InProgV,
    t: TreeV,
    target: int,
    v: Yaml,
    raw: bool,
) {
    lemma_yaml_size_pos(v);
}

/// Fold a stream of documents into node `p`, in order.
pub open spec fn apply_docs(
    files: FilesV,
    dir: DirV,
    ipr: InProgV,
    t: TreeV,
    p: int,
    docs: Seq<Yaml>,
) -> TreeV
    decreases fuel(files, ipr), list_size(docs), 5int, 0int,
        via apply_docs_dec
{
    if docs.len() == 0 {
        t
    } else {
        let t1 = apply_value(files, dir, ipr, t, p, docs[0]);
        apply_docs(files, dir, ipr, t1, p, docs.skip(1))
    }
}

#[via_fn]
proof fn apply_docs_dec(files: FilesV, dir: DirV, ipr: InProgV, t: TreeV, p: int, docs: Seq<Yaml>) {
    if docs.len() != 0 {
        lemma_list_size_elem(docs, 0);
        lemma_yaml_size_pos(docs[0]);
        lemma_list_size_skip(docs, 1);
        assert(list_size(docs) == yaml_size(docs[0]) + list_size(docs.skip(1)));
    }
}

} // verus!

// Everything below is the executable evaluator, proved equal to the
// specification above.

verus! {

/// Whether `tag` is exactly the literal `lit`.
fn tag_is(tag: &Vec<char>, lit: &str) -> (r: bool)
    ensures
        r == (tag@ == lit@),
{
    let l = crate::text::chars_of_str(lit);
    crate::node::eq_chars(tag, &l)
}

/// Find the first snapshot entry whose path is `p`.
fn file_find_exec(files: &Vec<(Vec<char>, Vec<char>)>, p: &Vec<char>) -> (r: Option<usize>)
    ensures
        match r {
            Some(j) => j < files@.len() && file_find(files.deep_view(), p@) == Some(j as int),
            None => file_find(files.deep_view(), p@) is None,
        },
{
    let ghost full = files.deep_view();
    let mut k: usize = 0;
    proof {
        assert(full.skip(0) =~= full);
    }
    while k < files.len()
        invariant
            k <= files@.len(),
            full == files.deep_view(),
            full.len() == files@.len(),
            file_find(full, p@) == match file_find(full.skip(k as int), p@) {
                Some(x) => Some(x + k),
                None => None,
            },
        decreases files@.len() - k,
    {
        proof {
            assert(full.skip(k as int)[0] == full[k as int]);
            assert(full[k as int] == files@[k as int].deep_view());
            assert(full[k as int].0 =~= files@[k as int].0@);
            assert(full.skip(k as int).skip(1) =~= full.skip(k + 1));
        }
        if crate::node::eq_chars(&files[k].0, p) {
            proof {
                assert(file_find(full.skip(k as int), p@) == Some(0int));
            }
            return Some(k);
        }
        k += 1;
    }
    proof {
        assert(full.skip(full.len() as int) =~= Seq::<(Seq<char>, Seq<char>)>::empty());
    }
    None
}

/// Whether `p` occurs in the path list.
fn in_list_exec(xs: &Vec<Vec<char>>, p: &Vec<char>) -> (r: bool)
    ensures
        r == in_list(xs.deep_view(), p@),
{
    let ghost full = xs.deep_view();
    let mut k: usize = 0;
    while k < xs.len()
        invariant
            k <= xs@.len(),
            full == xs.deep_view(),
            full.len() == xs@.len(),
            forall|i: int| 0 <= i < k ==> full[i] != p@,
        decreases xs@.len() - k,
    {
        proof {
            assert(full[k as int] =~= xs@[k as int]@);
        }
        if crate::node::eq_chars(&xs[k], p) {
            proof {
                assert(full[k as int] == p@);
            }
            return true;
        }
        k += 1;
    }
    proof {
        if in_list(full, p@) {
            let i = choose|i: int| 0 <= i < full.len() && full[i] == p@;
            assert(full[i] != p@);
        }
    }
    false
}

/// Truncate a diagnostic rendering to at most 102 characters.
fn trunc100_exec(s: &Vec<char>) -> (r: Vec<char>)
    ensures
        r@ == trunc100(s@),
{
    if s.len() > 100 {
        let mut out = crate::interp::copy_range(s, 0, 99);
        out.push('.');
        out.push('.');
        out.push('.');
        proof {
            assert(s@.subrange(0, 99) =~= s@.take(99));
            assert(out@ =~= trunc100(s@));
        }
        out
    } else {
        crate::node::clone_chars(s)
    }
}

/// Whether every evaluated key starts with `_`.
fn all_underscore_exec(keys: &Vec<Vec<char>>) -> (r: bool)
    ensures
        r == all_underscore(keys.deep_view()),
{
    let ghost full = keys.deep_view();
    let mut k: usize = 0;
    while k < keys.len()
        invariant
            k <= keys@.len(),
            full == keys.deep_view(),
            full.len() == keys@.len(),
            forall|i: int| 0 <= i < k ==> (#[trigger] full[i]).len() > 0 && full[i][0] == '_',
        decreases keys@.len() - k,
    {
        proof {
            assert(full[k as int] =~= keys@[k as int]@);
        }
        if keys[k].len() == 0 {
            return false;
        }
        if keys[k][0] != '_' {
            return false;
        }
        k += 1;
    }
    true
}

/// Whether the loop directive's argument has a valid shape.
fn foreach_ok_exec(v: &Yaml) -> (r: bool)
    ensures
        r == foreach_ok(*v),
{
    match v {
        Yaml::List(xs) => {
            if xs.len() < 3 {
                return false;
            }
            match &xs[0] {
                Yaml::List(ks) => {
                    let n = ks.len();
                    let mut i: usize = 2;
                    while i < xs.len()
                        invariant
                            2 <= i <= xs@.len(),
                            n == ks@.len(),
                            xs@[0] == Yaml::List(*ks),
                            *v == Yaml::List(*xs),
                            xs@.len() >= 3,
                            forall|j: int| 2 <= j < i ==> row_ok(#[trigger] xs@[j], n as nat),
                        decreases xs@.len() - i,
                    {
                        match &xs[i] {
                            Yaml::List(row) => {
                                if row.len() != n {
                                    proof {
                                        assert(!row_ok(xs@[i as int], n as nat));
                                    }
                                    return false;
                                }
                            },
                            _ => {
                                proof {
                                    assert(!row_ok(xs@[i as int], n as nat));
                                }
                                return false;
                            },
                        }
                        i += 1;
                    }
                    proof {
                        assert(rows_ok(xs@, n as nat));
                    }
                    true
                },
                _ => false,
            }
        },
        _ => false,
    }
}

/// Fold value `y` into node `target` of `t`.
pub fn add_value(
    t: &mut PageTree,
    files: &Vec<(Vec<char>, Vec<char>)>,
    dir: &Option<Vec<Vec<char>>>,
    ipr: &Vec<Vec<char>>,
    target: usize,
    y: &Yaml,
)
    requires
        wf(old(t)@.nodes),
        target < old(t)@.nodes.len(),
    ensures
        final(t)@ == apply_value(
            files.deep_view(),
            dir.deep_view(),
            ipr.deep_view(),
            old(t)@,
            target as int,
            *y,
        ),
        wf(final(t)@.nodes),
        old(t)@.nodes.len() <= final(t)@.nodes.len(),
    decreases
        fuel(files.deep_view(), ipr.deep_view()),
        yaml_size(*y),
        0int,
        0int,
{
    let ghost fv = files.deep_view();
    let ghost dv = dir.deep_view();
    let ghost iv = ipr.deep_view();
    let ghost t0 = t@;
    match y {
        Yaml::Null => {
            proof {
                assert(t@ == apply_value(fv, dv, iv, t0, target as int, *y));
            }
        },
        Yaml::Bool(b) => {
            let text = if *b {
                crate::text::chars_of_str("true")
            } else {
                crate::text::chars_of_str("false")
            };
            t.add_content(target, &text);
            proof {
                assert(t@ == apply_value(fv, dv, iv, t0, target as int, *y));
            }
        },
        Yaml::Num(s) => {
            t.add_content(target, s);
            proof {
                assert(t@ == apply_value(fv, dv, iv, t0, target as int, *y));
            }
        },
        Yaml::Str(s) => {
            t.add_content(target, s);
            proof {
                assert(t@ == apply_value(fv, dv, iv, t0, target as int, *y));
            }
        },
        Yaml::List(xs) => {
            proof {
                assert(xs@.skip(0) =~= xs@);
            }
            apply_elems_exec(t, files, dir, ipr, target, xs, 0);
            proof {
                assert(t@ == apply_value(fv, dv, iv, t0, target as int, *y));
            }
        },
        Yaml::Dict(ps) => {
            proof {
                assert(ps@.skip(0) =~= ps@);
            }
            apply_pairs_exec(t, files, dir, ipr, target, ps, 0);
            proof {
                assert(t@ == apply_value(fv, dv, iv, t0, target as int, *y));
            }
        },
        Yaml::Tagged(tag, b) => {
            proof {
                lemma_yaml_size_pos(**b);
            }
            apply_tagged_exec(t, files, dir, ipr, target, tag, b);
            proof {
                assert(t@ == apply_value(fv, dv, iv, t0, target as int, *y));
            }
        },
    }
}

/// Render `y` through a fresh throwaway node under `target`.
fn eval_arg_exec(
    t: &mut PageTree,
    files: &Vec<(Vec<char>, Vec<char>)>,
    dir: &Option<Vec<Vec<char>>>,
    ipr: &Vec<Vec<char>>,
    target: usize,
    y: &Yaml,
) -> (r: Vec<char>)
    requires
        wf(old(t)@.nodes),
        target < old(t)@.nodes.len(),
    ensures
        ({
            let sp = eval_arg(
                files.deep_view(),
                dir.deep_view(),
                ipr.deep_view(),
                old(t)@,
                target as int,
                *y,
            );
            final(t)@ == sp.0 && r@ == sp.1
        }),
        wf(final(t)@.nodes),
        old(t)@.nodes.len() <= final(t)@.nodes.len(),
    decreases
        fuel(files.deep_view(), ipr.deep_view()),
        yaml_size(*y),
        1int,
        0int,
{
    let ghost t0 = t@;
    let idx = t.fresh_node(target);
    proof {
        assert(t@ =~~= st_alloc(t0, target as int));
    }
    add_value(t, files, dir, ipr, idx, y);
    let r = t.render(idx);
    r
}

/// Fold the list elements `xs[from..]` into `target`.
fn apply_elems_exec(
    t: &mut PageTree,
    files: &Vec<(Vec<char>, Vec<char>)>,
    dir: &Option<Vec<Vec<char>>>,
    ipr: &Vec<Vec<char>>,
    target: usize,
    xs: &Vec<Yaml>,
    from: usize,
)
    requires
        wf(old(t)@.nodes),
        target < old(t)@.nodes.len(),
        from <= xs@.len(),
    ensures
        final(t)@ == apply_elems(
            files.deep_view(),
            dir.deep_view(),
            ipr.deep_view(),
            old(t)@,
            target as int,
            xs@.skip(from as int),
        ),
        wf(final(t)@.nodes),
        old(t)@.nodes.len() <= final(t)@.nodes.len(),
    decreases
        fuel(files.deep_view(), ipr.deep_view()),
        list_size(xs@.skip(from as int)),
        5int,
        0int,
{
    let ghost fv = files.deep_view();
    let ghost dv = dir.deep_view();
    let ghost iv = ipr.deep_view();
    let ghost t0 = t@;
    let ghost sv = xs@.skip(from as int);
    if from >= xs.len() {
        proof {
            assert(sv =~= Seq::<Yaml>::empty());
        }
        return;
    }
    proof {
        assert(sv[0] == xs@[from as int]);
        assert(sv.skip(1) =~= xs@.skip(from + 1));
        lemma_list_size_elem(sv, 0);
        lemma_yaml_size_pos(sv[0]);
        lemma_list_size_skip(sv, 1);
        assert(list_size(sv) == yaml_size(sv[0]) + list_size(sv.skip(1)));
    }
    match &xs[from] {
        Yaml::Tagged(tag, b) => {
            proof {
                lemma_yaml_size_pos(**b);
            }
            apply_tagged_exec(t, files, dir, ipr, target, tag, b);
        },
        Yaml::Dict(ps) => {
            if ps.len() > 0 {
                proof {
                    assert(ps@.skip(0) =~= ps@);
                    lemma_pairs_size_elem(ps@, 0);
                }
                let mut keys: Vec<Vec<char>> = Vec::new();
                eval_pair_keys_exec(t, files, dir, ipr, target, ps, 0, &mut keys);
                proof {
                    assert(keys.deep_view() =~= eval_pair_keys(
                        fv,
                        dv,
                        iv,
                        t0,
                        target as int,
                        ps@,
                    ).1);
                }
                if all_underscore_exec(&keys) {
                    proof {
                        assert(keys.deep_view().skip(0) =~= keys.deep_view());
                        assert forall|i: int|
                            0 <= i < keys@.len() implies (#[trigger] keys@[i]@).len() > 0 by {
                            assert(keys.deep_view()[i] =~= keys@[i]@);
                            assert(all_underscore(keys.deep_view()));
                            assert(keys.deep_view()[i].len() > 0);
                        }
                    }
                    eval_meta_values_exec(t, files, dir, ipr, target, ps, &keys, 0);
                } else {
                    plain_elem_exec(t, files, dir, ipr, target, &xs[from]);
                }
            } else {
                plain_elem_exec(t, files, dir, ipr, target, &xs[from]);
            }
        },
        _ => {
            plain_elem_exec(t, files, dir, ipr, target, &xs[from]);
        },
    }
    let ghost t2 = t@;
    proof {
        assert(t2 == match sv[0] {
            Yaml::Tagged(tag, b) => apply_tagged(fv, dv, iv, t0, target as int, tag@, *b),
            Yaml::Dict(ps) => if ps@.len() > 0 {
                let (t1, keys) = eval_pair_keys(fv, dv, iv, t0, target as int, ps@);
                if all_underscore(keys) {
                    eval_meta_values(fv, dv, iv, t1, target as int, ps@, keys)
                } else {
                    plain_elem(fv, dv, iv, t1, target as int, sv[0])
                }
            } else {
                plain_elem(fv, dv, iv, t0, target as int, sv[0])
            },
            _ => plain_elem(fv, dv, iv, t0, target as int, sv[0]),
        });
    }
    apply_elems_exec(t, files, dir, ipr, target, xs, from + 1);
    proof {
        assert(t@ == apply_elems(fv, dv, iv, t0, target as int, sv));
    }
}

/// One ordinary list element: a nameless child of `target`.
fn plain_elem_exec(
    t: &mut PageTree,
    files: &Vec<(Vec<char>, Vec<char>)>,
    dir: &Option<Vec<Vec<char>>>,
    ipr: &Vec<Vec<char>>,
    target: usize,
    e: &Yaml,
)
    requires
        wf(old(t)@.nodes),
        target < old(t)@.nodes.len(),
    ensures
        final(t)@ == plain_elem(
            files.deep_view(),
            dir.deep_view(),
            ipr.deep_view(),
            old(t)@,
            target as int,
            *e,
        ),
        wf(final(t)@.nodes),
        old(t)@.nodes.len() <= final(t)@.nodes.len(),
    decreases
        fuel(files.deep_view(), ipr.deep_view()),
        yaml_size(*e),
        2int,
        1int,
{
    let ghost t0 = t@;
    let child = t.fresh_node(target);
    t.add_child(target, child);
    proof {
        assert(t@ =~~= st_attach(st_alloc(t0, target as int), target as int, child as int));
    }
    add_value(t, files, dir, ipr, child, e);
}

/// Evaluate the keys of `ps[from..]`, appending the key texts.
fn eval_pair_keys_exec(
    t: &mut PageTree,
    files: &Vec<(Vec<char>, Vec<char>)>,
    dir: &Option<Vec<Vec<char>>>,
    ipr: &Vec<Vec<char>>,
    target: usize,
    ps: &Vec<(Yaml, Yaml)>,
    from: usize,
    out: &mut Vec<Vec<char>>,
)
    requires
        wf(old(t)@.nodes),
        target < old(t)@.nodes.len(),
        from <= ps@.len(),
    ensures
        ({
            let sp = eval_pair_keys(
                files.deep_view(),
                dir.deep_view(),
                ipr.deep_view(),
                old(t)@,
                target as int,
                ps@.skip(from as int),
            );
            final(t)@ == sp.0 && final(out).deep_view() == old(out).deep_view() + sp.1
        }),
        wf(final(t)@.nodes),
        old(t)@.nodes.len() <= final(t)@.nodes.len(),
    decreases
        fuel(files.deep_view(), ipr.deep_view()),
        pairs_size(ps@.skip(from as int)),
        5int,
        0int,
{
    let ghost fv = files.deep_view();
    let ghost dv = dir.deep_view();
    let ghost iv = ipr.deep_view();
    let ghost t0 = t@;
    let ghost sv = ps@.skip(from as int);
    if from >= ps.len() {
        proof {
            assert(sv =~= Seq::<(Yaml, Yaml)>::empty());
            assert(final(out).deep_view() =~= old(out).deep_view() + eval_pair_keys(
                fv,
                dv,
                iv,
                t0,
                target as int,
                sv,
            ).1);
        }
        return;
    }
    proof {
        assert(sv[0] == ps@[from as int]);
        assert(sv.skip(1) =~= ps@.skip(from + 1));
        lemma_pairs_size_elem(sv, 0);
        lemma_yaml_size_pos(sv[0].0);
        lemma_yaml_size_pos(sv[0].1);
        lemma_pairs_size_skip(sv, 1);
        assert(pairs_size(sv) == yaml_size(sv[0].0) + yaml_size(sv[0].1) + pairs_size(sv.skip(1)));
    }
    let k = eval_arg_exec(t, files, dir, ipr, target, &ps[from].0);
    let ghost kv = k@;
    out.push(k);
    let ghost mid = out.deep_view();
    proof {
        assert(mid =~~= old(out).deep_view() + seq![kv]);
    }
    eval_pair_keys_exec(t, files, dir, ipr, target, ps, from + 1, out);
    proof {
        let sp = eval_pair_keys(fv, dv, iv, t0, target as int, sv);
        assert(final(out).deep_view() =~= old(out).deep_view() + sp.1);
    }
}

/// Evaluate the values of an all-`_` mapping from `from` on, attaching each
/// as an attribute of `target`.
fn eval_meta_values_exec(
    t: &mut PageTree,
    files: &Vec<(Vec<char>, Vec<char>)>,
    dir: &Option<Vec<Vec<char>>>,
    ipr: &Vec<Vec<char>>,
    target: usize,
    ps: &Vec<(Yaml, Yaml)>,
    keys: &Vec<Vec<char>>,
    from: usize,
)
    requires
        wf(old(t)@.nodes),
        target < old(t)@.nodes.len(),
        from <= ps@.len(),
        from <= keys@.len(),
        forall|i: int|
            from <= i < keys@.len() ==> (#[trigger] keys@[i]@).len() > 0,
    ensures
        final(t)@ == eval_meta_values(
            files.deep_view(),
            dir.deep_view(),
            ipr.deep_view(),
            old(t)@,
            target as int,
            ps@.skip(from as int),
            keys.deep_view().skip(from as int),
        ),
        wf(final(t)@.nodes),
        old(t)@.nodes.len() <= final(t)@.nodes.len(),
    decreases
        fuel(files.deep_view(), ipr.deep_view()),
        pairs_size(ps@.skip(from as int)),
        5int,
        1int,
{
    let ghost fv = files.deep_view();
    let ghost dv = dir.deep_view();
    let ghost iv = ipr.deep_view();
    let ghost t0 = t@;
    let ghost sv = ps@.skip(from as int);
    let ghost kv = keys.deep_view().skip(from as int);
    if from >= ps.len() || from >= keys.len() {
        proof {
            if from >= ps.len() {
                assert(sv =~= Seq::<(Yaml, Yaml)>::empty());
            } else {
                assert(kv =~= Seq::<Seq<char>>::empty());
            }
        }
        return;
    }
    proof {
        assert(sv[0] == ps@[from as int]);
        assert(sv.skip(1) =~= ps@.skip(from + 1));
        assert(kv[0] == keys.deep_view()[from as int]);
        assert(kv[0] =~= keys@[from as int]@);
        assert(kv.skip(1) =~= keys.deep_view().skip(from + 1));
        lemma_pairs_size_elem(sv, 0);
        lemma_yaml_size_pos(sv[0].0);
        lemma_yaml_size_pos(sv[0].1);
        lemma_pairs_size_skip(sv, 1);
        assert(pairs_size(sv) == yaml_size(sv[0].0) + yaml_size(sv[0].1) + pairs_size(sv.skip(1)));
    }
    let v = eval_arg_exec(t, files, dir, ipr, target, &ps[from].1);
    let kbody = crate::interp::copy_range(&keys[from], 1, keys[from].len());
    proof {
        assert(kbody@ =~= kv[0].skip(1));
    }
    t.add_metadata(target, kbody, v);
    proof {
        let sp = eval_arg(fv, dv, iv, t0, target as int, sv[0].1);
        assert(t@ =~~= st_meta(sp.0, target as int, kv[0].skip(1), sp.1));
    }
    eval_meta_values_exec(t, files, dir, ipr, target, ps, keys, from + 1);
    proof {
        assert(t@ == eval_meta_values(fv, dv, iv, t0, target as int, sv, kv));
    }
}

/// Fold the mapping pairs `ps[from..]` into `target`.
fn apply_pairs_exec(
    t: &mut PageTree,
    files: &Vec<(Vec<char>, Vec<char>)>,
    dir: &Option<Vec<Vec<char>>>,
    ipr: &Vec<Vec<char>>,
    target: usize,
    ps: &Vec<(Yaml, Yaml)>,
    from: usize,
)
    requires
        wf(old(t)@.nodes),
        target < old(t)@.nodes.len(),
        from <= ps@.len(),
    ensures
        final(t)@ == apply_pairs(
            files.deep_view(),
            dir.deep_view(),
            ipr.deep_view(),
            old(t)@,
            target as int,
            ps@.skip(from as int),
        ),
        wf(final(t)@.nodes),
        old(t)@.nodes.len() <= final(t)@.nodes.len(),
    decreases
        fuel(files.deep_view(), ipr.deep_view()),
        pairs_size(ps@.skip(from as int)),
        5int,
        0int,
{
    let ghost fv = files.deep_view();
    let ghost dv = dir.deep_view();
    let ghost iv = ipr.deep_view();
    let ghost t0 = t@;
    let ghost sv = ps@.skip(from as int);
    if from >= ps.len() {
        proof {
            assert(sv =~= Seq::<(Yaml, Yaml)>::empty());
        }
        return;
    }
    proof {
        assert(sv[0] == ps@[from as int]);
        assert(sv.skip(1) =~= ps@.skip(from + 1));
        lemma_pairs_size_elem(sv, 0);
        lemma_yaml_size_pos(sv[0].0);
        lemma_yaml_size_pos(sv[0].1);
        lemma_pairs_size_skip(sv, 1);
        assert(pairs_size(sv) == yaml_size(sv[0].0) + yaml_size(sv[0].1) + pairs_size(sv.skip(1)));
    }
    let k = eval_arg_exec(t, files, dir, ipr, target, &ps[from].0);
    if k.len() > 0 && k[0] == '_' {
        let v = eval_arg_exec(t, files, dir, ipr, target, &ps[from].1);
        let kbody = crate::interp::copy_range(&k, 1, k.len());
        proof {
            assert(kbody@ =~= k@.skip(1));
        }
        t.add_metadata(target, kbody, v);
        proof {
            let sp1 = eval_arg(fv, dv, iv, t0, target as int, sv[0].0);
            let sp2 = eval_arg(fv, dv, iv, sp1.0, target as int, sv[0].1);
            assert(t@ =~~= st_meta(sp2.0, target as int, k@.skip(1), sp2.1));
        }
    } else {
        let ghost t1 = t@;
        let child = t.fresh_node(target);
        proof {
            assert(t@ =~~= st_alloc(t1, target as int));
        }
        t.set_name(child, &k);
        add_value(t, files, dir, ipr, child, &ps[from].1);
        t.add_child(target, child);
        proof {
            let sp1 = eval_arg(fv, dv, iv, t0, target as int, sv[0].0);
            let ta = st_set_name(st_alloc(sp1.0, target as int), child as int, sp1.1);
            let tb = apply_value(fv, dv, iv, ta, child as int, sv[0].1);
            assert(t@ =~~= st_attach(tb, target as int, child as int));
        }
    }
    apply_pairs_exec(t, files, dir, ipr, target, ps, from + 1);
    proof {
        assert(t@ == apply_pairs(fv, dv, iv, t0, target as int, sv));
    }
}

} // verus!

// The directive dispatch and the directives themselves.

verus! {

/// Dispatch a tagged value by its tag text.
fn apply_tagged_exec(
    t: &mut PageTree,
    files: &Vec<(Vec<char>, Vec<char>)>,
    dir: &Option<Vec<Vec<char>>>,
    ipr: &Vec<Vec<char>>,
    target: usize,
    tag: &Vec<char>,
    v: &Yaml,
)
    requires
        wf(old(t)@.nodes),
        target < old(t)@.nodes.len(),
    ensures
        final(t)@ == apply_tagged(
            files.deep_view(),
            dir.deep_view(),
            ipr.deep_view(),
            old(t)@,
            target as int,
            tag@,
            *v,
        ),
        wf(final(t)@.nodes),
        old(t)@.nodes.len() <= final(t)@.nodes.len(),
    decreases
        fuel(files.deep_view(), ipr.deep_view()),
        yaml_size(*v),
        4int,
        0int,
{
    if tag_is(tag, "!DEF") {
        dir_def_exec(t, files, dir, ipr, target, v);
    } else if tag_is(tag, "!IF") {
        dir_if_exec(t, files, dir, ipr, target, v);
    } else if tag_is(tag, "!FOREACH") {
        dir_foreach_exec(t, files, dir, ipr, target, v);
    } else if tag_is(tag, "!INCLUDE") || tag_is(tag, "!INCLUDE_RAW") {
        let raw = tag_is(tag, "!INCLUDE_RAW");
        dir_insert_exec(t, files, dir, ipr, target, v, raw);
    } else if tag_is(tag, "!COPY") || tag_is(tag, "!COPY_DIR") {
        dir_copy_exec(t, files, dir, ipr, target, v);
    } else if tag_is(tag, "!SHELL_CMD") {
        t.push_log(LogEntry::ShellDisabled(crate::yaml::value_tostring(v)));
    } else {
        t.push_log(LogEntry::UnknownDirective(crate::node::clone_chars(tag)));
    }
}

/// The variable-definition directive.
fn dir_def_exec(
    t: &mut PageTree,
    files: &Vec<(Vec<char>, Vec<char>)>,
    dir: &Option<Vec<Vec<char>>>,
    ipr: &Vec<Vec<char>>,
    target: usize,
    v: &Yaml,
)
    requires
        wf(old(t)@.nodes),
        target < old(t)@.nodes.len(),
    ensures
        final(t)@ == dir_def(
            files.deep_view(),
            dir.deep_view(),
            ipr.deep_view(),
            old(t)@,
            target as int,
            *v,
        ),
        wf(final(t)@.nodes),
        old(t)@.nodes.len() <= final(t)@.nodes.len(),
    decreases
        fuel(files.deep_view(), ipr.deep_view()),
        yaml_size(*v),
        3int,
        0int,
{
    let ghost fv = files.deep_view();
    let ghost iv = ipr.deep_view();
    let ghost t0 = t@;
    match v {
        Yaml::List(xs) => {
            if xs.len() == 2 {
                proof {
                    lemma_list_size_elem(xs@, 0);
                    lemma_list_size_elem(xs@, 1);
                    lemma_yaml_size_pos(xs@[0]);
                    lemma_yaml_size_pos(xs@[1]);
                }
                let none_dir: Option<Vec<Vec<char>>> = None;
                let k = eval_arg_exec(t, files, &none_dir, ipr, target, &xs[0]);
                let vv = eval_arg_exec(t, files, &none_dir, ipr, target, &xs[1]);
                t.register_var(target, &k, &vv);
                proof {
                    let sp1 = eval_arg(fv, None, iv, t0, target as int, xs@[0]);
                    let sp2 = eval_arg(fv, None, iv, sp1.0, target as int, xs@[1]);
                    assert(t@ == st_register_var(sp2.0, target as int, sp1.1, sp2.1));
                }
            } else {
                t.push_log(LogEntry::InvalidDirective(
                    crate::text::chars_of_str("!DEF"),
                    crate::yaml::value_tostring(v),
                ));
            }
        },
        _ => {
            t.push_log(LogEntry::InvalidDirective(
                crate::text::chars_of_str("!DEF"),
                crate::yaml::value_tostring(v),
            ));
        },
    }
}

/// The conditional directive.
fn dir_if_exec(
    t: &mut PageTree,
    files: &Vec<(Vec<char>, Vec<char>)>,
    dir: &Option<Vec<Vec<char>>>,
    ipr: &Vec<Vec<char>>,
    target: usize,
    v: &Yaml,
)
    requires
        wf(old(t)@.nodes),
        target < old(t)@.nodes.len(),
    ensures
        final(t)@ == dir_if(
            files.deep_view(),
            dir.deep_view(),
            ipr.deep_view(),
            old(t)@,
            target as int,
            *v,
        ),
        wf(final(t)@.nodes),
        old(t)@.nodes.len() <= final(t)@.nodes.len(),
    decreases
        fuel(files.deep_view(), ipr.deep_view()),
        yaml_size(*v),
        3int,
        0int,
{
    let ghost fv = files.deep_view();
    let ghost dv = dir.deep_view();
    let ghost iv = ipr.deep_view();
    let ghost t0 = t@;
    match v {
        Yaml::List(xs) => {
            if 2 <= xs.len() && xs.len() <= 3 {
                proof {
                    lemma_list_size_elem(xs@, 0);
                    lemma_list_size_elem(xs@, 1);
                    lemma_yaml_size_pos(xs@[0]);
                    if xs@.len() == 3 {
                        lemma_list_size_elem(xs@, 2);
                    }
                }
                let c = eval_arg_exec(t, files, dir, ipr, target, &xs[0]);
                if c.len() > 0 {
                    add_value(t, files, dir, ipr, target, &xs[1]);
                } else if xs.len() == 3 {
                    add_value(t, files, dir, ipr, target, &xs[2]);
                }
                proof {
                    assert(t@ == dir_if(fv, dv, iv, t0, target as int, *v));
                }
            } else {
                t.push_log(LogEntry::InvalidDirective(
                    crate::text::chars_of_str("!IF"),
                    crate::yaml::value_tostring(v),
                ));
            }
        },
        _ => {
            t.push_log(LogEntry::InvalidDirective(
                crate::text::chars_of_str("!IF"),
                crate::yaml::value_tostring(v),
            ));
        },
    }
}

/// The loop directive.
fn dir_foreach_exec(
    t: &mut PageTree,
    files: &Vec<(Vec<char>, Vec<char>)>,
    dir: &Option<Vec<Vec<char>>>,
    ipr: &Vec<Vec<char>>,
    target: usize,
    v: &Yaml,
)
    requires
        wf(old(t)@.nodes),
        target < old(t)@.nodes.len(),
    ensures
        final(t)@ == dir_foreach(
            files.deep_view(),
            dir.deep_view(),
            ipr.deep_view(),
            old(t)@,
            target as int,
            *v,
        ),
        wf(final(t)@.nodes),
        old(t)@.nodes.len() <= final(t)@.nodes.len(),
    decreases
        fuel(files.deep_view(), ipr.deep_view()),
        yaml_size(*v),
        3int,
        0int,
{
    let ghost fv = files.deep_view();
    let ghost dv = dir.deep_view();
    let ghost iv = ipr.deep_view();
    let ghost t0 = t@;
    if !foreach_ok_exec(v) {
        let rendering = crate::yaml::value_tostring(v);
        let bounded = trunc100_exec(&rendering);
        t.push_log(LogEntry::InvalidDirective(crate::text::chars_of_str("!FOREACH"), bounded));
        return;
    }
    match v {
        Yaml::List(xs) => {
            match &xs[0] {
                Yaml::List(ks) => {
                    proof {
                        lemma_list_size_elem(xs@, 0);
                        lemma_list_size_elem(xs@, 1);
                        lemma_yaml_size_pos(xs@[0]);
                        lemma_yaml_size_pos(xs@[1]);
                        assert(list_size(xs@) == yaml_size(xs@[0]) + list_size(xs@.skip(1)));
                        assert(xs@.skip(1).len() > 0);
                        assert(xs@.skip(1)[0] == xs@[1]);
                        assert(xs@.skip(1).skip(1) =~= xs@.skip(2));
                        assert(list_size(xs@.skip(1)) == yaml_size(xs@[1]) + list_size(
                            xs@.skip(2),
                        ));
                        assert(ks@.skip(0) =~= ks@);
                    }
                    let mut keys: Vec<Vec<char>> = Vec::new();
                    eval_list_args_exec(t, files, dir, ipr, target, ks, 0, &mut keys);
                    proof {
                        assert(keys.deep_view() =~= eval_list_args(
                            fv,
                            dv,
                            iv,
                            t0,
                            target as int,
                            ks@,
                        ).1);
                    }
                    foreach_rows_exec(t, files, dir, ipr, target, xs, 2, &xs[1], &keys);
                    proof {
                        assert(t@ == dir_foreach(fv, dv, iv, t0, target as int, *v));
                    }
                },
                _ => {
                    proof {
                        assert(false);
                    }
                },
            }
        },
        _ => {
            proof {
                assert(false);
            }
        },
    }
}

/// Render each key name of the loop directive, appending the texts.
fn eval_list_args_exec(
    t: &mut PageTree,
    files: &Vec<(Vec<char>, Vec<char>)>,
    dir: &Option<Vec<Vec<char>>>,
    ipr: &Vec<Vec<char>>,
    target: usize,
    ks: &Vec<Yaml>,
    from: usize,
    out: &mut Vec<Vec<char>>,
)
    requires
        wf(old(t)@.nodes),
        target < old(t)@.nodes.len(),
        from <= ks@.len(),
    ensures
        ({
            let sp = eval_list_args(
                files.deep_view(),
                dir.deep_view(),
                ipr.deep_view(),
                old(t)@,
                target as int,
                ks@.skip(from as int),
            );
            final(t)@ == sp.0 && final(out).deep_view() == old(out).deep_view() + sp.1
        }),
        wf(final(t)@.nodes),
        old(t)@.nodes.len() <= final(t)@.nodes.len(),
    decreases
        fuel(files.deep_view(), ipr.deep_view()),
        list_size(ks@.skip(from as int)),
        5int,
        0int,
{
    let ghost fv = files.deep_view();
    let ghost dv = dir.deep_view();
    let ghost iv = ipr.deep_view();
    let ghost t0 = t@;
    let ghost sv = ks@.skip(from as int);
    if from >= ks.len() {
        proof {
            assert(sv =~= Seq::<Yaml>::empty());
            assert(final(out).deep_view() =~= old(out).deep_view() + eval_list_args(
                fv,
                dv,
                iv,
                t0,
                target as int,
                sv,
            ).1);
        }
        return;
    }
    proof {
        assert(sv[0] == ks@[from as int]);
        assert(sv.skip(1) =~= ks@.skip(from + 1));
        lemma_list_size_elem(sv, 0);
        lemma_yaml_size_pos(sv[0]);
        lemma_list_size_skip(sv, 1);
        assert(list_size(sv) == yaml_size(sv[0]) + list_size(sv.skip(1)));
    }
    let k = eval_arg_exec(t, files, dir, ipr, target, &ks[from]);
    let ghost kv = k@;
    out.push(k);
    proof {
        assert(out.deep_view() =~~= old(out).deep_view() + seq![kv]);
    }
    eval_list_args_exec(t, files, dir, ipr, target, ks, from + 1, out);
    proof {
        let sp = eval_list_args(fv, dv, iv, t0, target as int, sv);
        assert(final(out).deep_view() =~= old(out).deep_view() + sp.1);
    }
}

/// One child per row of `xs[from..]`.
fn foreach_rows_exec(
    t: &mut PageTree,
    files: &Vec<(Vec<char>, Vec<char>)>,
    dir: &Option<Vec<Vec<char>>>,
    ipr: &Vec<Vec<char>>,
    target: usize,
    xs: &Vec<Yaml>,
    from: usize,
    template: &Yaml,
    keys: &Vec<Vec<char>>,
)
    requires
        wf(old(t)@.nodes),
        target < old(t)@.nodes.len(),
        from <= xs@.len(),
    ensures
        final(t)@ == foreach_rows(
            files.deep_view(),
            dir.deep_view(),
            ipr.deep_view(),
            old(t)@,
            target as int,
            xs@.skip(from as int),
            *template,
            keys.deep_view(),
        ),
        wf(final(t)@.nodes),
        old(t)@.nodes.len() <= final(t)@.nodes.len(),
    decreases
        fuel(files.deep_view(), ipr.deep_view()),
        list_size(xs@.skip(from as int)) + yaml_size(*template),
        2int,
        0int,
{
    let ghost fv = files.deep_view();
    let ghost dv = dir.deep_view();
    let ghost iv = ipr.deep_view();
    let ghost t0 = t@;
    let ghost sv = xs@.skip(from as int);
    if from >= xs.len() {
        proof {
            assert(sv =~= Seq::<Yaml>::empty());
        }
        return;
    }
    proof {
        assert(sv[0] == xs@[from as int]);
        assert(sv.skip(1) =~= xs@.skip(from + 1));
        lemma_list_size_elem(sv, 0);
        lemma_yaml_size_pos(sv[0]);
        lemma_list_size_skip(sv, 1);
        assert(list_size(sv) == yaml_size(sv[0]) + list_size(sv.skip(1)));
    }
    let child = t.fresh_node(target);
    t.add_child(target, child);
    proof {
        assert(t@ =~~= st_attach(st_alloc(t0, target as int), target as int, child as int));
    }
    match &xs[from] {
        Yaml::List(r) => {
            proof {
                assert(decreases_to!(sv[0] => *r));
                assert(r@.skip(0) =~= r@);
                assert(keys.deep_view().skip(0) =~= keys.deep_view());
            }
            bind_row_exec(t, files, dir, ipr, child, r, keys, 0);
        },
        _ => {
            proof {
                assert(bind_row(
                    fv,
                    dv,
                    iv,
                    t@,
                    child as int,
                    Seq::<Yaml>::empty(),
                    keys.deep_view(),
                ) == t@);
            }
        },
    }
    add_value(t, files, dir, ipr, child, template);
    foreach_rows_exec(t, files, dir, ipr, target, xs, from + 1, template, keys);
    proof {
        assert(t@ == foreach_rows(fv, dv, iv, t0, target as int, sv, *template, keys.deep_view()));
    }
}

/// Bind each row value to its key, in order, on the row's child.
fn bind_row_exec(
    t: &mut PageTree,
    files: &Vec<(Vec<char>, Vec<char>)>,
    dir: &Option<Vec<Vec<char>>>,
    ipr: &Vec<Vec<char>>,
    child: usize,
    relems: &Vec<Yaml>,
    keys: &Vec<Vec<char>>,
    from: usize,
)
    requires
        wf(old(t)@.nodes),
        child < old(t)@.nodes.len(),
        from <= relems@.len(),
        from <= keys@.len(),
    ensures
        final(t)@ == bind_row(
            files.deep_view(),
            dir.deep_view(),
            ipr.deep_view(),
            old(t)@,
            child as int,
            relems@.skip(from as int),
            keys.deep_view().skip(from as int),
        ),
        wf(final(t)@.nodes),
        old(t)@.nodes.len() <= final(t)@.nodes.len(),
    decreases
        fuel(files.deep_view(), ipr.deep_view()),
        list_size(relems@.skip(from as int)),
        5int,
        0int,
{
    let ghost fv = files.deep_view();
    let ghost dv = dir.deep_view();
    let ghost iv = ipr.deep_view();
    let ghost t0 = t@;
    let ghost sv = relems@.skip(from as int);
    let ghost kv = keys.deep_view().skip(from as int);
    if from >= relems.len() || from >= keys.len() {
        proof {
            if from >= relems.len() {
                assert(sv =~= Seq::<Yaml>::empty());
            } else {
                assert(kv =~= Seq::<Seq<char>>::empty());
            }
        }
        return;
    }
    proof {
        assert(sv[0] == relems@[from as int]);
        assert(sv.skip(1) =~= relems@.skip(from + 1));
        assert(kv[0] == keys.deep_view()[from as int]);
        assert(kv[0] =~= keys@[from as int]@);
        assert(kv.skip(1) =~= keys.deep_view().skip(from + 1));
        lemma_list_size_elem(sv, 0);
        lemma_yaml_size_pos(sv[0]);
        lemma_list_size_skip(sv, 1);
        assert(list_size(sv) == yaml_size(sv[0]) + list_size(sv.skip(1)));
    }
    let vtext = eval_arg_exec(t, files, dir, ipr, child, &relems[from]);
    t.register_var(child, &keys[from], &vtext);
    proof {
        let sp = eval_arg(fv, dv, iv, t0, child as int, sv[0]);
        assert(t@ == st_register_var(sp.0, child as int, kv[0], sp.1));
    }
    bind_row_exec(t, files, dir, ipr, child, relems, keys, from + 1);
    proof {
        assert(t@ == bind_row(fv, dv, iv, t0, child as int, sv, kv));
    }
}

/// The copy directive.
fn dir_copy_exec(
    t: &mut PageTree,
    files: &Vec<(Vec<char>, Vec<char>)>,
    dir: &Option<Vec<Vec<char>>>,
    ipr: &Vec<Vec<char>>,
    target: usize,
    v: &Yaml,
)
    requires
        wf(old(t)@.nodes),
        target < old(t)@.nodes.len(),
    ensures
        final(t)@ == dir_copy(
            files.deep_view(),
            dir.deep_view(),
            ipr.deep_view(),
            old(t)@,
            target as int,
            *v,
        ),
        wf(final(t)@.nodes),
        old(t)@.nodes.len() <= final(t)@.nodes.len(),
    decreases
        fuel(files.deep_view(), ipr.deep_view()),
        yaml_size(*v),
        3int,
        0int,
{
    let ghost fv = files.deep_view();
    let ghost dv = dir.deep_view();
    let ghost iv = ipr.deep_view();
    let ghost t0 = t@;
    proof {
        lemma_yaml_size_pos(*v);
    }
    let s = eval_arg_exec(t, files, dir, ipr, target, v);
    match crate::paths::resolve_path_exec(dir, &s) {
        Err(e) => {
            t.push_log(e);
            t.push_log(LogEntry::InvalidDirective(
                crate::text::chars_of_str("!COPY"),
                crate::yaml::value_tostring(v),
            ));
        },
        Ok(comps) => {
            let joined = crate::paths::join_exec(&comps);
            match file_find_exec(files, &joined) {
                None => {
                    t.push_log(LogEntry::MissingFile(joined));
                    t.push_log(LogEntry::InvalidDirective(
                        crate::text::chars_of_str("!COPY"),
                        crate::yaml::value_tostring(v),
                    ));
                },
                Some(_) => {
                    t.push_copy(joined);
                },
            }
        },
    }
    proof {
        assert(t@ == dir_copy(fv, dv, iv, t0, target as int, *v));
    }
}

/// The insertion directive.
fn dir_insert_exec(
    t: &mut PageTree,
    files: &Vec<(Vec<char>, Vec<char>)>,
    dir: &Option<Vec<Vec<char>>>,
    ipr: &Vec<Vec<char>>,
    target: usize,
    v: &Yaml,
    raw: bool,
)
    requires
        wf(old(t)@.nodes),
        target < old(t)@.nodes.len(),
    ensures
        final(t)@ == dir_insert(
            files.deep_view(),
            dir.deep_view(),
            ipr.deep_view(),
            old(t)@,
            target as int,
            *v,
            raw,
        ),
        wf(final(t)@.nodes),
        old(t)@.nodes.len() <= final(t)@.nodes.len(),
    decreases
        fuel(files.deep_view(), ipr.deep_view()),
        yaml_size(*v),
        3int,
        0int,
{
    let ghost fv = files.deep_view();
    let ghost dv = dir.deep_view();
    let ghost iv = ipr.deep_view();
    let ghost t0 = t@;
    proof {
        lemma_yaml_size_pos(*v);
    }
    let s = eval_arg_exec(t, files, dir, ipr, target, v);
    let idx = t.fresh_node(target);
    let ghost t2v = t@;
    proof {
        let sp = eval_arg(fv, dv, iv, t0, target as int, *v);
        assert(t2v =~~= st_alloc(sp.0, target as int));
    }
    match crate::paths::resolve_path_exec(dir, &s) {
        Err(e) => {
            let ghost ev = e@;
            t.push_log(e);
            t.push_log(LogEntry::InvalidDirective(
                crate::text::chars_of_str("!INCLUDE"),
                crate::yaml::value_tostring(v),
            ));
            proof {
                assert(t@ =~~= st_log(
                    st_log(t2v, ev),
                    LogV::InvalidDirective("!INCLUDE"@, vts(*v)),
                ));
            }
        },
        Ok(comps) => {
            let ghost compsv = comps.deep_view();
            let joined = crate::paths::join_exec(&comps);
            let ghost joinedv = joined@;
            match file_find_exec(files, &joined) {
                None => {
                    t.push_log(LogEntry::MissingFile(joined));
                    t.push_log(LogEntry::InvalidDirective(
                        crate::text::chars_of_str("!INCLUDE"),
                        crate::yaml::value_tostring(v),
                    ));
                    proof {
                        assert(t@ =~~= st_log(
                            st_log(t2v, LogV::MissingFile(joinedv)),
                            LogV::InvalidDirective("!INCLUDE"@, vts(*v)),
                        ));
                    }
                },
                Some(fi) => {
                    proof {
                        lemma_file_find(fv, joined@);
                        assert(fv[fi as int].1 =~= files@[fi as int].1@);
                    }
                    if in_list_exec(ipr, &joined) || ipr.len() >= files.len() {
                        t.push_log(LogEntry::CycleDetected(joined));
                        proof {
                            assert(t@ =~~= st_log(t2v, LogV::CycleDetected(joinedv)));
                        }
                    } else if raw {
                        t.add_content_unparsed(idx, &files[fi].1);
                        t.add_child(target, idx);
                        proof {
                            assert(t@ =~~= st_attach(
                                st_content_raw(t2v, idx as int, fv[fi as int].1),
                                target as int,
                                idx as int,
                            ));
                        }
                    } else {
                        let content = crate::text::string_of_chars(&files[fi].1);
                        proof {
                            assert(content@ == fv[fi as int].1);
                        }
                        match parse_documents(content.as_str()) {
                            None => {
                                t.push_log(LogEntry::ParseFailed(joined));
                                proof {
                                    assert(t@ =~~= st_log(t2v, LogV::ParseFailed(joinedv)));
                                }
                            },
                            Some(docs) => {
                                let mut newdir_comps = comps;
                                if newdir_comps.len() > 0 {
                                    newdir_comps.pop();
                                }
                                proof {
                                    if compsv.len() > 0 {
                                        assert(newdir_comps.deep_view() =~~= compsv.drop_last());
                                    } else {
                                        assert(newdir_comps.deep_view() =~~= compsv);
                                    }
                                }
                                let mut ipr2 = crate::paths::clone_comps(ipr);
                                ipr2.push(joined);
                                proof {
                                    assert(ipr2.deep_view() =~~= iv.push(joinedv));
                                    assert(fuel(fv, ipr2.deep_view()) < fuel(fv, iv));
                                    assert(docs@.skip(0) =~= docs@);
                                }
                                let newdir = Some(newdir_comps);
                                proof {
                                    let specdir = if compsv.len() > 0 {
                                        compsv.drop_last()
                                    } else {
                                        compsv
                                    };
                                    assert(newdir.deep_view() =~~= Some(specdir));
                                }
                                apply_docs_exec(t, files, &newdir, &ipr2, idx, &docs, 0);
                                t.add_child(target, idx);
                                proof {
                                    let t3 = apply_docs(
                                        fv,
                                        newdir.deep_view(),
                                        iv.push(joinedv),
                                        t2v,
                                        idx as int,
                                        docs@,
                                    );
                                    assert(t@ =~~= st_attach(t3, target as int, idx as int));
                                }
                            },
                        }
                    }
                },
            }
        },
    }
    proof {
        assert(t@ == dir_insert(fv, dv, iv, t0, target as int, *v, raw));
    }
}

/// Fold a stream of documents into node `p`, in order.
pub fn apply_docs_exec(
    t: &mut PageTree,
    files: &Vec<(Vec<char>, Vec<char>)>,
    dir: &Option<Vec<Vec<char>>>,
    ipr: &Vec<Vec<char>>,
    p: usize,
    docs: &Vec<Yaml>,
    from: usize,
)
    requires
        wf(old(t)@.nodes),
        p < old(t)@.nodes.len(),
        from <= docs@.len(),
    ensures
        final(t)@ == apply_docs(
            files.deep_view(),
            dir.deep_view(),
            ipr.deep_view(),
            old(t)@,
            p as int,
            docs@.skip(from as int),
        ),
        wf(final(t)@.nodes),
        old(t)@.nodes.len() <= final(t)@.nodes.len(),
    decreases
        fuel(files.deep_view(), ipr.deep_view()),
        list_size(docs@.skip(from as int)),
        5int,
        0int,
{
    let ghost fv = files.deep_view();
    let ghost dv = dir.deep_view();
    let ghost iv = ipr.deep_view();
    let ghost t0 = t@;
    let ghost sv = docs@.skip(from as int);
    if from >= docs.len() {
        proof {
            assert(sv =~= Seq::<Yaml>::empty());
        }
        return;
    }
    proof {
        assert(sv[0] == docs@[from as int]);
        assert(sv.skip(1) =~= docs@.skip(from + 1));
        lemma_list_size_elem(sv, 0);
        lemma_yaml_size_pos(sv[0]);
        lemma_list_size_skip(sv, 1);
        assert(list_size(sv) == yaml_size(sv[0]) + list_size(sv.skip(1)));
    }
    add_value(t, files, dir, ipr, p, &docs[from]);
    apply_docs_exec(t, files, dir, ipr, p, docs, from + 1);
    proof {
        assert(t@ == apply_docs(fv, dv, iv, t0, p as int, sv));
    }
}

} // verus!
