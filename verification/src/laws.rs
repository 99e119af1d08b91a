//! Laws of the engine: properties that relate several operations, stated
//! over the same spec functions the executable contracts use.

use vstd::prelude::*;
use crate::diag::LogV;
use crate::node::{NodeV, assoc, scope_lookup, lookup_text, lookup_log};
use crate::interp::{interp, find_close};
use crate::engine::{dir_foreach, dir_copy, dir_insert, eval_arg, foreach_ok, st_log, st_alloc,
    st_copy, trunc100, file_find, FilesV, DirV, InProgV};
use crate::paths::{resolve_path, join};
use crate::yaml::{Yaml, vts};

verus! {

/// Text the scanner copies verbatim: no escape and no reference opener.
pub open spec fn plain_text(s: Seq<char>) -> bool {
    forall|j: int| 0 <= j < s.len() ==> s[j] != '\\' && (#[trigger] s[j]) != '{'
}

/// Text usable as a variable name inside braces: plain, and no closer.
pub open spec fn name_text(s: Seq<char>) -> bool {
    plain_text(s) && forall|j: int| 0 <= j < s.len() ==> (#[trigger] s[j]) != '}'
}

/// Plain text interpolates to itself, with no diagnostics.
pub proof fn lemma_interp_plain(nodes: Seq<NodeV>, i: int, s: Seq<char>)
    requires
        plain_text(s),
    ensures
        interp(nodes, i, s) == (s, Seq::<LogV>::empty()),
    decreases s.len(),
{
    if s.len() == 0 {
        assert(interp(nodes, i, s).0 =~= s);
    } else {
        assert(plain_text(s.skip(1))) by {
            assert(forall|j: int| 0 <= j < s.skip(1).len() ==> s.skip(1)[j] == s[j + 1]);
        }
        lemma_interp_plain(nodes, i, s.skip(1));
        assert(seq![s[0]] + s.skip(1) =~= s);
    }
}

/// Plain text followed by an escape pair interpolates to the text plus the
/// escaped character, with no diagnostics.
proof fn lemma_plain_then_escape(nodes: Seq<NodeV>, i: int, w: Seq<char>, c: char)
    requires
        name_text(w),
    ensures
        interp(nodes, i, w + seq!['\\', c]) == (w.push(c), Seq::<LogV>::empty()),
    decreases w.len(),
{
    let s = w + seq!['\\', c];
    if w.len() == 0 {
        assert(s.len() == 2);
        assert(s[0] == '\\');
        assert(s[1] == c);
        assert(s.skip(2) =~= Seq::<char>::empty());
        lemma_interp_plain(nodes, i, Seq::<char>::empty());
        assert(interp(nodes, i, s).0 =~= seq![c] + Seq::<char>::empty());
        assert(interp(nodes, i, s).0 =~= w.push(c));
        assert(interp(nodes, i, s).1 =~= Seq::<LogV>::empty());
    } else {
        assert(s[0] == w[0]);
        assert(s[0] != '\\' && s[0] != '{');
        assert(name_text(w.skip(1))) by {
            assert(forall|j: int| 0 <= j < w.skip(1).len() ==> w.skip(1)[j] == w[j + 1]);
        }
        lemma_plain_then_escape(nodes, i, w.skip(1), c);
        assert(s.skip(1) =~= w.skip(1) + seq!['\\', c]);
        assert(interp(nodes, i, s).0 =~= seq![s[0]] + w.skip(1).push(c));
        assert(interp(nodes, i, s).0 =~= w.push(c));
        assert(interp(nodes, i, s).1 =~= Seq::<LogV>::empty());
    }
}

/// Escaping round trip: an escaped brace pair around plain text yields the
/// literal braces around that text, resolves no variable, and emits no
/// diagnostic. In particular escaping is stable: nothing inside the escaped
/// braces is ever looked up.
pub proof fn lemma_escape_roundtrip(nodes: Seq<NodeV>, i: int, w: Seq<char>)
    requires
        name_text(w),
    ensures
        interp(nodes, i, seq!['\\', '{'] + w + seq!['\\', '}']) == (
            seq!['{'] + w + seq!['}'],
            Seq::<LogV>::empty(),
        ),
{
    let s = seq!['\\', '{'] + w + seq!['\\', '}'];
    assert(s[0] == '\\');
    assert(s.len() == w.len() + 4);
    assert(s[1] == '{');
    lemma_plain_then_escape(nodes, i, w, '}');
    assert(s.skip(2) =~= w + seq!['\\', '}']);
    assert(seq![s[1]] + w.push('}') =~= seq!['{'] + w + seq!['}']);
}

/// The `n`-th ancestor of node `i` along the scope chain.
pub open spec fn anc(nodes: Seq<NodeV>, i: int, n: nat) -> Option<int>
    decreases n,
{
    if n == 0 {
        Some(i)
    } else {
        match nodes[i].parent {
            Some(p) => if 0 <= p < i {
                anc(nodes, p, (n - 1) as nat)
            } else {
                None
            },
            None => None,
        }
    }
}

/// Scope chain: when no node strictly nearer than the `n`-th ancestor binds
/// the key, lookup from `i` equals lookup from that ancestor. With
/// `lemma_scope_nearest` below this is exactly nearest-wins shadowing.
pub proof fn lemma_scope_chain(nodes: Seq<NodeV>, i: int, n: nat, k: Seq<char>)
    requires
        0 <= i < nodes.len(),
        anc(nodes, i, n) is Some,
        forall|m: nat|
            m < n ==> #[trigger] anc(nodes, i, m) is Some && assoc(
                nodes[anc(nodes, i, m)->Some_0].vars,
                k,
            ) is None,
    ensures
        0 <= anc(nodes, i, n)->Some_0 < nodes.len(),
        scope_lookup(nodes, i, k) == scope_lookup(nodes, anc(nodes, i, n)->Some_0, k),
    decreases n,
{
    if n == 0 {
    } else {
        assert(anc(nodes, i, 0nat) is Some && assoc(nodes[anc(nodes, i, 0nat)->Some_0].vars, k)
            is None);
        assert(assoc(nodes[i].vars, k) is None);
        let p = nodes[i].parent->Some_0;
        assert(0 <= p < i);
        assert forall|m: nat| m < n - 1 implies #[trigger] anc(nodes, p, m) is Some && assoc(
            nodes[anc(nodes, p, m)->Some_0].vars,
            k,
        ) is None by {
            assert(anc(nodes, i, (m + 1) as nat) is Some && assoc(
                nodes[anc(nodes, i, (m + 1) as nat)->Some_0].vars,
                k,
            ) is None);
            assert(anc(nodes, i, (m + 1) as nat) == anc(nodes, p, m));
        }
        lemma_scope_chain(nodes, p, (n - 1) as nat, k);
        assert(anc(nodes, i, n) == anc(nodes, p, (n - 1) as nat));
    }
}

/// Nearest-wins: a binding on the `n`-th ancestor is the one a descendant
/// sees, provided no nearer scope shadows it.
pub proof fn lemma_scope_nearest(nodes: Seq<NodeV>, i: int, n: nat, k: Seq<char>, v: Seq<char>)
    requires
        0 <= i < nodes.len(),
        anc(nodes, i, n) is Some,
        forall|m: nat|
            m < n ==> #[trigger] anc(nodes, i, m) is Some && assoc(
                nodes[anc(nodes, i, m)->Some_0].vars,
                k,
            ) is None,
        assoc(nodes[anc(nodes, i, n)->Some_0].vars, k) == Some(v),
    ensures
        scope_lookup(nodes, i, k) == Some(v),
        lookup_text(nodes, i, k) == v,
{
    lemma_scope_chain(nodes, i, n, k);
}

/// An unresolvable variable yields exactly the placeholder text and exactly
/// one warning — never a failure.
pub proof fn lemma_undefined_placeholder(nodes: Seq<NodeV>, i: int, k: Seq<char>)
    requires
        scope_lookup(nodes, i, k) is None,
    ensures
        lookup_text(nodes, i, k) == "UNDEFINED"@,
        lookup_log(nodes, i, k) == seq![LogV::UndefinedVar(k)],
{
}

/// A name prefix without braces shifts a close-brace search by its length.
proof fn lemma_fc_prefix(w: Seq<char>, rest: Seq<char>, d: int)
    requires
        name_text(w),
    ensures
        find_close(w + rest, d) == match find_close(rest, d) {
            Some(j) => Some(j + w.len()),
            None => None::<int>,
        },
    decreases w.len(),
{
    if w.len() == 0 {
        assert(w + rest =~= rest);
    } else {
        let s = w + rest;
        assert(s[0] == w[0]);
        assert(s[0] != '{' && s[0] != '}');
        assert(name_text(w.skip(1))) by {
            assert(forall|j: int| 0 <= j < w.skip(1).len() ==> w.skip(1)[j] == w[j + 1]);
        }
        lemma_fc_prefix(w.skip(1), rest, d);
        assert(s.skip(1) =~= w.skip(1) + rest);
    }
}

/// Indirection (double substitution): wrapping a plain name in two brace
/// pairs resolves the name, then resolves the resulting text, one level of
/// value substitution each; the diagnostics are those of the two lookups.
pub proof fn lemma_indirection(nodes: Seq<NodeV>, i: int, w: Seq<char>)
    requires
        name_text(w),
    ensures
        interp(nodes, i, seq!['{', '{'] + w + seq!['}', '}']) == (
            lookup_text(nodes, i, lookup_text(nodes, i, w)),
            lookup_log(nodes, i, w) + lookup_log(nodes, i, lookup_text(nodes, i, w)),
        ),
{
    let n = w.len() as int;
    let s = seq!['{', '{'] + w + seq!['}', '}'];
    assert(s.len() == n + 4);
    assert(s[0] == '{');
    let s1 = s.skip(1);
    assert(s1 =~= seq!['{'] + (w + seq!['}', '}']));
    // locate the outer closer
    assert(find_close(seq!['}'], 0) == Some(0int));
    assert(find_close(seq!['}', '}'], 1) == Some(1int)) by {
        assert(seq!['}', '}'][0] == '}');
        assert(seq!['}', '}'].skip(1) =~= seq!['}']);
    }
    lemma_fc_prefix(w, seq!['}', '}'], 1);
    assert(find_close(w + seq!['}', '}'], 1) == Some(n + 1));
    assert(s1[0] == '{');
    assert(s1.skip(1) =~= w + seq!['}', '}']);
    assert(find_close(s1, 0) == Some(n + 2));
    // the inner reference text
    let inner = s1.take(n + 2);
    assert(inner =~= seq!['{'] + w + seq!['}']);
    assert(inner[0] == '{');
    assert(inner.skip(1) =~= w + seq!['}']);
    lemma_fc_prefix(w, seq!['}'], 0);
    assert(find_close(w + seq!['}'], 0) == Some(n));
    let inner2 = inner.skip(1).take(n);
    assert(inner2 =~= w);
    lemma_interp_plain(nodes, i, w);
    assert(inner.skip(n + 2) =~= Seq::<char>::empty());
    assert(inner.skip(1).take(n) =~= w);
    lemma_interp_plain(nodes, i, Seq::<char>::empty());
    let r_inner = interp(nodes, i, inner);
    assert(r_inner.0 =~= lookup_text(nodes, i, w) + Seq::<char>::empty());
    assert(r_inner.0 =~= lookup_text(nodes, i, w));
    assert(r_inner.1 =~= Seq::<LogV>::empty() + lookup_log(nodes, i, w) + Seq::<LogV>::empty());
    assert(r_inner.1 =~= lookup_log(nodes, i, w));
    // the outer reference
    assert(s.skip(n + 4) =~= Seq::<char>::empty());
    let r = interp(nodes, i, s);
    assert(r.0 =~= lookup_text(nodes, i, lookup_text(nodes, i, w)) + Seq::<char>::empty());
    assert(r.0 =~= lookup_text(nodes, i, lookup_text(nodes, i, w)));
    assert(r.1 =~= lookup_log(nodes, i, w) + lookup_log(nodes, i, lookup_text(nodes, i, w)));
}

/// A malformed loop directive is invalidated whole: the tree and the copy
/// actions are untouched — no partial application — and exactly one bounded
/// error is logged.
pub proof fn lemma_foreach_invalid(
    files: FilesV,
    dir: DirV,
    ipr: InProgV,
    t: crate::node::TreeV,
    target: int,
    v: Yaml,
)
    requires
        !foreach_ok(v),
    ensures
        dir_foreach(files, dir, ipr, t, target, v).nodes == t.nodes,
        dir_foreach(files, dir, ipr, t, target, v).copies == t.copies,
        dir_foreach(files, dir, ipr, t, target, v).log == t.log.push(
            LogV::InvalidDirective("!FOREACH"@, trunc100(vts(v))),
        ),
{
}

/// A copy whose path resolves inside the sandbox to an existing file records
/// exactly one copy action: the file's own normalized relative path, which —
/// having only plain segments — mirrors into the output root without ever
/// pointing outside it. The tree itself is unchanged apart from the argument
/// evaluation, and nothing is logged beyond it.
pub proof fn lemma_copy_mirrors(
    files: FilesV,
    dir: DirV,
    ipr: InProgV,
    t: crate::node::TreeV,
    target: int,
    v: Yaml,
)
    requires
        match dir {
            Some(d) => crate::paths::plain_segments(d),
            None => true,
        },
        resolve_path(dir, eval_arg(files, dir, ipr, t, target, v).1) is Ok,
        file_find(
            files,
            join(resolve_path(dir, eval_arg(files, dir, ipr, t, target, v).1)->Ok_0),
        ) is Some,
    ensures
        ({
            let sp = eval_arg(files, dir, ipr, t, target, v);
            let comps = resolve_path(dir, sp.1)->Ok_0;
            &&& dir_copy(files, dir, ipr, t, target, v) == st_copy(sp.0, join(comps))
            &&& crate::paths::plain_segments(comps)
        }),
{
    let sp = eval_arg(files, dir, ipr, t, target, v);
    crate::paths::lemma_resolve_plain(dir, sp.1);
}

/// A file-insertion path that the sandbox rejects is a logged no-op: the
/// nodes gain only the directive's own scratch nodes, no child is attached
/// to the target, no copy action appears, and no file content enters the
/// result — the outcome is the same whatever the snapshot holds at the
/// rejected path.
pub proof fn lemma_insert_sandboxed(
    files: FilesV,
    dir: DirV,
    ipr: InProgV,
    t: crate::node::TreeV,
    target: int,
    v: Yaml,
    raw: bool,
)
    requires
        resolve_path(dir, eval_arg(files, dir, ipr, t, target, v).1) is Err,
    ensures
        ({
            let sp = eval_arg(files, dir, ipr, t, target, v);
            let e = resolve_path(dir, sp.1)->Err_0;
            dir_insert(files, dir, ipr, t, target, v, raw) == st_log(
                st_log(st_alloc(sp.0, target), e),
                LogV::InvalidDirective("!INCLUDE"@, vts(v)),
            )
        }),
        dir_insert(files, dir, ipr, t, target, v, raw).copies == eval_arg(
            files,
            dir,
            ipr,
            t,
            target,
            v,
        ).0.copies,
        dir_insert(files, dir, ipr, t, target, v, raw).nodes[target] == st_alloc(
            eval_arg(files, dir, ipr, t, target, v).0,
            target,
        ).nodes[target],
{
}

} // verus!

// Truthiness of the conditional directive.

verus! {

/// Conditional truthiness: the rendered condition selects the branch by
/// emptiness alone — any non-empty text (including `0` or `false`) applies
/// the then-branch, empty text applies the else-branch or nothing.
pub proof fn lemma_if_truthiness(
    files: FilesV,
    dir: DirV,
    ipr: InProgV,
    t: crate::node::TreeV,
    target: int,
    v: Yaml,
)
    requires
        v is List,
        2 <= v->List_0@.len() <= 3,
    ensures
        ({
            let xs = v->List_0@;
            let sp = eval_arg(files, dir, ipr, t, target, xs[0]);
            &&& sp.1.len() > 0 ==> crate::engine::dir_if(files, dir, ipr, t, target, v)
                == crate::engine::apply_value(files, dir, ipr, sp.0, target, xs[1])
            &&& sp.1.len() == 0 && xs.len() == 3 ==> crate::engine::dir_if(
                files,
                dir,
                ipr,
                t,
                target,
                v,
            ) == crate::engine::apply_value(files, dir, ipr, sp.0, target, xs[2])
            &&& sp.1.len() == 0 && xs.len() == 2 ==> crate::engine::dir_if(
                files,
                dir,
                ipr,
                t,
                target,
                v,
            ) == sp.0
        }),
{
}

} // verus!
