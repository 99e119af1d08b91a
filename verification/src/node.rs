//! The document tree.
//!
//! One page is a tree of nodes: an element with a name, attribute pairs,
//! accumulated text content, ordered children, and a local variable scope.
//! Nodes live in an arena (`PageTree`); both the child list and the scope
//! parent are indices into it. A parent always has a smaller index than its
//! children, which grounds every walk over the tree.

use vstd::prelude::*;
use crate::diag::{LogEntry, LogV};

verus! {

/// One node of a page: an element, a text run, or a content-only carrier.
pub struct PageNode {
    /// Element name; empty means the node is a content-only node.
    pub name: Vec<char>,
    /// Attribute pairs, rendered in insertion order.
    pub metadata: Vec<(Vec<char>, Vec<char>)>,
    /// Accumulated text content.
    pub content: Vec<char>,
    /// Children, in document order, as arena indices.
    pub children: Vec<usize>,
    /// Scope parent, as an arena index; `None` only for a root.
    pub parent: Option<usize>,
    /// Local variable bindings, newest last.
    pub vars: Vec<(Vec<char>, Vec<char>)>,
}

/// The mathematical form of a node.
#[verifier::ext_equal]
pub ghost struct NodeV {
    pub name: Seq<char>,
    pub metadata: Seq<(Seq<char>, Seq<char>)>,
    pub content: Seq<char>,
    pub children: Seq<int>,
    pub parent: Option<int>,
    pub vars: Seq<(Seq<char>, Seq<char>)>,
}

impl View for PageNode {
    type V = NodeV;

    open spec fn view(&self) -> NodeV {
        NodeV {
            name: self.name@,
            metadata: self.metadata.deep_view(),
            content: self.content@,
            children: self.children@.map_values(|c: usize| c as int),
            parent: match self.parent {
                Some(p) => Some(p as int),
                None => None,
            },
            vars: self.vars.deep_view(),
        }
    }
}

impl DeepView for PageNode {
    type V = NodeV;

    open spec fn deep_view(&self) -> NodeV {
        self.view()
    }
}

/// A blank node with the given scope parent.
pub open spec fn blank_node(parent: Option<int>) -> NodeV {
    NodeV {
        name: Seq::empty(),
        metadata: Seq::empty(),
        content: Seq::empty(),
        children: Seq::empty(),
        parent: parent,
        vars: Seq::empty(),
    }
}

/// The arena that owns every node of one page, together with the diagnostics
/// and the copy actions the page produced. Node 0 is the page root.
pub struct PageTree {
    pub nodes: Vec<PageNode>,
    pub log: Vec<LogEntry>,
    /// Files to mirror from the input root to the output root, as normalized
    /// relative paths.
    pub copies: Vec<Vec<char>>,
}

/// The mathematical form of the arena.
#[verifier::ext_equal]
pub ghost struct TreeV {
    pub nodes: Seq<NodeV>,
    pub log: Seq<LogV>,
    pub copies: Seq<Seq<char>>,
}

impl View for PageTree {
    type V = TreeV;

    open spec fn view(&self) -> TreeV {
        TreeV {
            nodes: self.nodes.deep_view(),
            log: self.log.deep_view(),
            copies: self.copies.deep_view(),
        }
    }
}

/// Structural soundness of one node: the scope parent sits strictly below the
/// node's own index and every child strictly above it.
pub open spec fn wf_node(nodes: Seq<NodeV>, i: int) -> bool {
    &&& match nodes[i].parent {
        Some(p) => 0 <= p < i,
        None => true,
    }
    &&& forall|j: int|
        0 <= j < nodes[i].children.len() ==> i < #[trigger] nodes[i].children[j] < nodes.len()
}

/// Structural soundness of the whole arena.
pub open spec fn wf(nodes: Seq<NodeV>) -> bool {
    forall|i: int| 0 <= i < nodes.len() ==> #[trigger] wf_node(nodes, i)
}

/// Lookup in one scope's binding list; the newest binding of a key wins.
pub open spec fn assoc(vs: Seq<(Seq<char>, Seq<char>)>, k: Seq<char>) -> Option<Seq<char>>
    decreases vs.len(),
{
    if vs.len() == 0 {
        None
    } else if vs.last().0 == k {
        Some(vs.last().1)
    } else {
        assoc(vs.drop_last(), k)
    }
}

/// Lookup along the scope chain: the requesting node first, then each
/// ancestor in turn; the nearest definition wins.
pub open spec fn scope_lookup(nodes: Seq<NodeV>, i: int, k: Seq<char>) -> Option<Seq<char>>
    decreases i when 0 <= i < nodes.len()
{
    match assoc(nodes[i].vars, k) {
        Some(v) => Some(v),
        None => match nodes[i].parent {
            Some(p) => if 0 <= p < i { scope_lookup(nodes, p, k) } else { None },
            None => None,
        },
    }
}

/// The text a lookup yields: the nearest binding, or the placeholder.
pub open spec fn lookup_text(nodes: Seq<NodeV>, i: int, k: Seq<char>) -> Seq<char> {
    match scope_lookup(nodes, i, k) {
        Some(v) => v,
        None => "UNDEFINED"@,
    }
}

/// The diagnostics a lookup emits: one warning exactly when it fails.
pub open spec fn lookup_log(nodes: Seq<NodeV>, i: int, k: Seq<char>) -> Seq<LogV> {
    match scope_lookup(nodes, i, k) {
        Some(_) => Seq::empty(),
        None => seq![LogV::UndefinedVar(k)],
    }
}

/// Character-exact copy of a text.
pub fn clone_chars(v: &Vec<char>) -> (r: Vec<char>)
    ensures
        r@ == v@,
{
    let mut out: Vec<char> = Vec::new();
    let mut j: usize = 0;
    while j < v.len()
        invariant
            j <= v.len(),
            out@ == v@.take(j as int),
        decreases v.len() - j,
    {
        out.push(v[j]);
        j += 1;
        proof {
            assert(out@ =~= v@.take(j as int));
        }
    }
    proof {
        assert(v@.take(v@.len() as int) =~= v@);
    }
    out
}

/// Character-exact equality of two texts.
pub fn eq_chars(a: &Vec<char>, b: &Vec<char>) -> (r: bool)
    ensures
        r == (a@ == b@),
{
    if a.len() != b.len() {
        return false;
    }
    let mut j: usize = 0;
    while j < a.len()
        invariant
            j <= a.len(),
            a@.len() == b@.len(),
            forall|m: int| 0 <= m < j ==> a@[m] == b@[m],
        decreases a.len() - j,
    {
        if a[j] != b[j] {
            return false;
        }
        j += 1;
    }
    proof {
        assert(a@ =~= b@);
    }
    true
}

/// Lookup in one binding list, newest binding first.
fn assoc_find(vs: &Vec<(Vec<char>, Vec<char>)>, k: &Vec<char>) -> (r: Option<Vec<char>>)
    ensures
        match r {
            Some(v) => assoc(vs.deep_view(), k@) == Some(v@),
            None => assoc(vs.deep_view(), k@) is None,
        },
{
    let ghost full = vs.deep_view();
    let mut j: usize = vs.len();
    proof {
        assert(full.take(vs@.len() as int) =~= full);
    }
    while j > 0
        invariant
            j <= vs.len(),
            full == vs.deep_view(),
            full.len() == vs@.len(),
            assoc(full, k@) == assoc(full.take(j as int), k@),
        decreases j,
    {
        proof {
            assert(full[j - 1] == vs@[j - 1].deep_view());
            assert(full[j - 1].0 =~= vs@[j - 1].0@);
            assert(full[j - 1].1 =~= vs@[j - 1].1@);
            assert(full.take(j as int).last() == full[j - 1]);
            assert(full.take(j as int).drop_last() =~= full.take(j - 1));
        }
        if eq_chars(&vs[j - 1].0, k) {
            let r = clone_chars(&vs[j - 1].1);
            proof {
                assert(full.take(j as int).last().0 == k@);
                assert(assoc(full.take(j as int), k@) == Some(r@));
            }
            return Some(r);
        }
        j -= 1;
    }
    None
}

impl PageTree {
    /// A tree holding just a blank root node.
    pub fn new() -> (t: PageTree)
        ensures
            t@.nodes =~~= seq![blank_node(None)],
            t@.log =~~= Seq::<LogV>::empty(),
            t@.copies =~~= Seq::<Seq<char>>::empty(),
            wf(t@.nodes),
    {
        let root = PageNode {
            name: Vec::new(),
            metadata: Vec::new(),
            content: Vec::new(),
            children: Vec::new(),
            parent: None,
            vars: Vec::new(),
        };
        let mut nodes: Vec<PageNode> = Vec::new();
        nodes.push(root);
        let t = PageTree { nodes, log: Vec::new(), copies: Vec::new() };
        proof {
            assert(t@.nodes =~~= seq![blank_node(None)]);
            assert(t@.log =~~= Seq::<LogV>::empty());
            assert(t@.copies =~~= Seq::<Seq<char>>::empty());
            assert(wf_node(t@.nodes, 0));
        }
        t
    }

    /// Allocate a blank node whose scope parent is `parent`.
    pub fn fresh_node(&mut self, parent: usize) -> (idx: usize)
        requires
            parent < old(self)@.nodes.len(),
        ensures
            idx == old(self)@.nodes.len(),
            final(self)@.nodes == old(self)@.nodes.push(blank_node(Some(parent as int))),
            final(self)@.log == old(self)@.log,
            final(self)@.copies == old(self)@.copies,
            wf(old(self)@.nodes) ==> wf(final(self)@.nodes),
    {
        let idx = self.nodes.len();
        let n = PageNode {
            name: Vec::new(),
            metadata: Vec::new(),
            content: Vec::new(),
            children: Vec::new(),
            parent: Some(parent),
            vars: Vec::new(),
        };
        self.nodes.push(n);
        proof {
            assert(self@.nodes =~~= old(self)@.nodes.push(blank_node(Some(parent as int))));
            assert(self@.log =~~= old(self)@.log);
            assert(self@.copies =~~= old(self)@.copies);
            if wf(old(self)@.nodes) {
                assert forall|i: int| 0 <= i < self@.nodes.len() implies #[trigger] wf_node(
                    self@.nodes,
                    i,
                ) by {
                    if i < idx {
                        assert(wf_node(old(self)@.nodes, i));
                        assert(self@.nodes[i] == old(self)@.nodes[i]);
                    }
                }
            }
        }
        idx
    }

    /// Append `child` to `parent`'s child list.
    pub fn add_child(&mut self, parent: usize, child: usize)
        requires
            parent < child < old(self)@.nodes.len(),
        ensures
            final(self)@.nodes == old(self)@.nodes.update(
                parent as int,
                NodeV {
                    children: old(self)@.nodes[parent as int].children.push(child as int),
                    ..old(self)@.nodes[parent as int]
                },
            ),
            final(self)@.log == old(self)@.log,
            final(self)@.copies == old(self)@.copies,
            wf(old(self)@.nodes) ==> wf(final(self)@.nodes),
    {
        let ghost pre = self@.nodes;
        let n = &mut self.nodes[parent];
        n.children.push(child);
        proof {
            assert(self@.nodes =~~= pre.update(
                parent as int,
                NodeV {
                    children: pre[parent as int].children.push(child as int),
                    ..pre[parent as int]
                },
            ));
            assert(self@.log =~~= old(self)@.log);
            assert(self@.copies =~~= old(self)@.copies);
            if wf(pre) {
                assert forall|i: int| 0 <= i < self@.nodes.len() implies #[trigger] wf_node(
                    self@.nodes,
                    i,
                ) by {
                    assert(wf_node(pre, i));
                    if i == parent as int {
                        let oldn = pre[i];
                        let newn = self@.nodes[i];
                        assert forall|j: int|
                            0 <= j < newn.children.len() implies i < #[trigger] newn.children[j]
                            < self@.nodes.len() by {
                            if j < oldn.children.len() {
                                assert(newn.children[j] == oldn.children[j]);
                            }
                        }
                    }
                }
            }
        }
    }

    /// Append one attribute pair to node `i`.
    pub fn add_metadata(&mut self, i: usize, k: Vec<char>, v: Vec<char>)
        requires
            i < old(self)@.nodes.len(),
        ensures
            final(self)@.nodes == old(self)@.nodes.update(
                i as int,
                NodeV {
                    metadata: old(self)@.nodes[i as int].metadata.push((k@, v@)),
                    ..old(self)@.nodes[i as int]
                },
            ),
            final(self)@.log == old(self)@.log,
            final(self)@.copies == old(self)@.copies,
            wf(old(self)@.nodes) ==> wf(final(self)@.nodes),
    {
        let ghost pre = self@.nodes;
        let ghost kv = (k@, v@);
        let n = &mut self.nodes[i];
        n.metadata.push((k, v));
        proof {
            assert(self@.nodes =~~= pre.update(
                i as int,
                NodeV { metadata: pre[i as int].metadata.push(kv), ..pre[i as int] },
            ));
            assert(self@.log =~~= old(self)@.log);
            assert(self@.copies =~~= old(self)@.copies);
            if wf(pre) {
                assert forall|m: int| 0 <= m < self@.nodes.len() implies #[trigger] wf_node(
                    self@.nodes,
                    m,
                ) by {
                    assert(wf_node(pre, m));
                }
            }
        }
    }

    /// Append already-resolved text to node `i`'s content, verbatim.
    pub fn add_content_unparsed(&mut self, i: usize, s: &Vec<char>)
        requires
            i < old(self)@.nodes.len(),
        ensures
            final(self)@.nodes == old(self)@.nodes.update(
                i as int,
                NodeV {
                    content: old(self)@.nodes[i as int].content + s@,
                    ..old(self)@.nodes[i as int]
                },
            ),
            final(self)@.log == old(self)@.log,
            final(self)@.copies == old(self)@.copies,
            wf(old(self)@.nodes) ==> wf(final(self)@.nodes),
    {
        let ghost pre = self@.nodes;
        let mut j: usize = 0;
        proof {
            assert(self@.nodes =~~= pre.update(
                i as int,
                NodeV { content: pre[i as int].content + s@.take(0), ..pre[i as int] },
            ));
        }
        while j < s.len()
            invariant
                j <= s.len(),
                i < self@.nodes.len(),
                pre == old(self)@.nodes,
                self@.nodes.len() == pre.len(),
                self@.log == old(self)@.log,
                self@.copies == old(self)@.copies,
                self@.nodes == pre.update(
                    i as int,
                    NodeV { content: pre[i as int].content + s@.take(j as int), ..pre[i as int] },
                ),
            decreases s.len() - j,
        {
            let ghost mid = self@.nodes;
            let ghost ch = s@[j as int];
            let n = &mut self.nodes[i];
            n.content.push(s[j]);
            j += 1;
            proof {
                assert(self@.nodes =~~= mid.update(
                    i as int,
                    NodeV { content: mid[i as int].content.push(ch), ..mid[i as int] },
                ));
                assert(mid[i as int].content.push(ch) =~= pre[i as int].content + s@.take(
                    j as int,
                ));
                assert(self@.nodes =~~= pre.update(
                    i as int,
                    NodeV { content: pre[i as int].content + s@.take(j as int), ..pre[i as int] },
                ));
            }
        }
        proof {
            assert(s@.take(s@.len() as int) =~= s@);
            assert(self@.nodes =~~= pre.update(
                i as int,
                NodeV { content: pre[i as int].content + s@, ..pre[i as int] },
            ));
            if wf(pre) {
                assert forall|m: int| 0 <= m < self@.nodes.len() implies #[trigger] wf_node(
                    self@.nodes,
                    m,
                ) by {
                    assert(wf_node(pre, m));
                }
            }
        }
    }

    /// Re-parent node `i` to `p` for scope lookup.
    pub fn set_parent(&mut self, i: usize, p: usize)
        requires
            p < i < old(self)@.nodes.len(),
        ensures
            final(self)@.nodes == old(self)@.nodes.update(
                i as int,
                NodeV { parent: Some(p as int), ..old(self)@.nodes[i as int] },
            ),
            final(self)@.log == old(self)@.log,
            final(self)@.copies == old(self)@.copies,
            wf(old(self)@.nodes) ==> wf(final(self)@.nodes),
    {
        let ghost pre = self@.nodes;
        let n = &mut self.nodes[i];
        n.parent = Some(p);
        proof {
            assert(self@.nodes =~~= pre.update(
                i as int,
                NodeV { parent: Some(p as int), ..pre[i as int] },
            ));
            assert(self@.log =~~= old(self)@.log);
            assert(self@.copies =~~= old(self)@.copies);
            if wf(pre) {
                assert forall|m: int| 0 <= m < self@.nodes.len() implies #[trigger] wf_node(
                    self@.nodes,
                    m,
                ) by {
                    assert(wf_node(pre, m));
                }
            }
        }
    }

    /// Append one already-resolved binding to node `i`'s scope.
    pub fn push_var(&mut self, i: usize, k: Vec<char>, v: Vec<char>)
        requires
            i < old(self)@.nodes.len(),
        ensures
            final(self)@.nodes == old(self)@.nodes.update(
                i as int,
                NodeV {
                    vars: old(self)@.nodes[i as int].vars.push((k@, v@)),
                    ..old(self)@.nodes[i as int]
                },
            ),
            final(self)@.log == old(self)@.log,
            final(self)@.copies == old(self)@.copies,
            wf(old(self)@.nodes) ==> wf(final(self)@.nodes),
    {
        let ghost pre = self@.nodes;
        let ghost kv = (k@, v@);
        let n = &mut self.nodes[i];
        n.vars.push((k, v));
        proof {
            assert(self@.nodes =~~= pre.update(
                i as int,
                NodeV { vars: pre[i as int].vars.push(kv), ..pre[i as int] },
            ));
            assert(self@.log =~~= old(self)@.log);
            assert(self@.copies =~~= old(self)@.copies);
            if wf(pre) {
                assert forall|m: int| 0 <= m < self@.nodes.len() implies #[trigger] wf_node(
                    self@.nodes,
                    m,
                ) by {
                    assert(wf_node(pre, m));
                }
            }
        }
    }

    /// Set node `i`'s name to already-resolved text.
    pub fn set_name_unparsed(&mut self, i: usize, s: Vec<char>)
        requires
            i < old(self)@.nodes.len(),
        ensures
            final(self)@.nodes == old(self)@.nodes.update(
                i as int,
                NodeV { name: s@, ..old(self)@.nodes[i as int] },
            ),
            final(self)@.log == old(self)@.log,
            final(self)@.copies == old(self)@.copies,
            wf(old(self)@.nodes) ==> wf(final(self)@.nodes),
    {
        let ghost pre = self@.nodes;
        let ghost sv = s@;
        let n = &mut self.nodes[i];
        n.name = s;
        proof {
            assert(self@.nodes =~~= pre.update(
                i as int,
                NodeV { name: sv, ..pre[i as int] },
            ));
            assert(self@.log =~~= old(self)@.log);
            assert(self@.copies =~~= old(self)@.copies);
            if wf(pre) {
                assert forall|m: int| 0 <= m < self@.nodes.len() implies #[trigger] wf_node(
                    self@.nodes,
                    m,
                ) by {
                    assert(wf_node(pre, m));
                }
            }
        }
    }

    /// Record one file to mirror into the output root.
    pub fn push_copy(&mut self, p: Vec<char>)
        ensures
            final(self)@.nodes == old(self)@.nodes,
            final(self)@.log == old(self)@.log,
            final(self)@.copies == old(self)@.copies.push(p@),
    {
        self.copies.push(p);
        proof {
            assert(self@.nodes =~~= old(self)@.nodes);
            assert(self@.log =~~= old(self)@.log);
            assert(self@.copies =~~= old(self)@.copies.push(p@));
        }
    }

    /// Append one diagnostic.
    pub fn push_log(&mut self, e: LogEntry)
        ensures
            final(self)@.nodes == old(self)@.nodes,
            final(self)@.log == old(self)@.log.push(e@),
            final(self)@.copies == old(self)@.copies,
    {
        self.log.push(e);
        proof {
            assert(self@.nodes =~~= old(self)@.nodes);
            assert(self@.log =~~= old(self)@.log.push(e@));
            assert(self@.copies =~~= old(self)@.copies);
        }
    }

    /// Resolve a variable along the scope chain from node `i`; yields the
    /// nearest binding, or the placeholder plus one warning.
    pub fn get_var(&mut self, i: usize, k: &Vec<char>) -> (r: Vec<char>)
        requires
            wf(old(self)@.nodes),
            i < old(self)@.nodes.len(),
        ensures
            final(self)@.nodes == old(self)@.nodes,
            final(self)@.copies == old(self)@.copies,
            r@ == lookup_text(old(self)@.nodes, i as int, k@),
            final(self)@.log == old(self)@.log + lookup_log(old(self)@.nodes, i as int, k@),
    {
        let ghost nodes = self@.nodes;
        let mut cur: usize = i;
        loop
            invariant
                wf(nodes),
                nodes == old(self)@.nodes,
                self@.nodes == nodes,
                i < nodes.len(),
                self@.log == old(self)@.log,
                self@.copies == old(self)@.copies,
                cur < nodes.len(),
                scope_lookup(nodes, i as int, k@) == scope_lookup(nodes, cur as int, k@),
            decreases cur,
        {
            proof {
                assert(self.nodes@[cur as int].deep_view() == nodes[cur as int]);
            }
            match assoc_find(&self.nodes[cur].vars, k) {
                Some(v) => {
                    proof {
                        assert(scope_lookup(nodes, cur as int, k@) == Some(v@));
                        assert(self@.log =~= old(self)@.log + lookup_log(nodes, i as int, k@));
                    }
                    return v;
                },
                None => {
                    proof {
                        assert(assoc(nodes[cur as int].vars, k@) is None);
                        assert(wf_node(nodes, cur as int));
                    }
                    let next = self.nodes[cur].parent;
                    match next {
                        Some(p) => {
                            proof {
                                assert(nodes[cur as int].parent == Some(p as int));
                                assert(scope_lookup(nodes, cur as int, k@) == scope_lookup(
                                    nodes,
                                    p as int,
                                    k@,
                                ));
                            }
                            cur = p;
                        },
                        None => {
                            proof {
                                assert(nodes[cur as int].parent is None);
                                assert(scope_lookup(nodes, cur as int, k@) is None);
                            }
                            let r = crate::text::undefined_marker();
                            self.push_log(LogEntry::UndefinedVar(clone_chars(k)));
                            proof {
                                assert(self@.log =~= old(self)@.log + lookup_log(
                                    nodes,
                                    i as int,
                                    k@,
                                ));
                            }
                            return r;
                        },
                    }
                },
            }
        }
    }
}

} // verus!

// A standalone node constructor.

verus! {

impl PageNode {
    /// A blank node with no scope parent.
    pub fn new() -> (n: PageNode)
        ensures
            n@ == blank_node(None),
    {
        let n = PageNode {
            name: Vec::new(),
            metadata: Vec::new(),
            content: Vec::new(),
            children: Vec::new(),
            parent: None,
            vars: Vec::new(),
        };
        proof {
            assert(n@ =~~= blank_node(None));
        }
        n
    }
}

} // verus!
