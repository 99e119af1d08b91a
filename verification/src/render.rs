//! Rendering a tree into markup text.
//!
//! A node renders by four mutually exclusive cases, selected by whether it
//! has a name and whether it has any children or content: a bare content
//! run, a concatenation of children, a self-closing element, or a full
//! element wrapping content and children. Attribute pairs render in
//! insertion order, unescaped.

use vstd::prelude::*;
use crate::node::{NodeV, PageNode, PageTree, wf, wf_node};
use crate::interp::append_chars;

verus! {

/// The attribute text of the first `k` pairs: ` key="value"` each.
pub open spec fn meta_text(md: Seq<(Seq<char>, Seq<char>)>, k: int) -> Seq<char>
    decreases k,
{
    if k <= 0 || k > md.len() {
        Seq::empty()
    } else {
        meta_text(md, k - 1) + seq![' '] + md[k - 1].0 + seq!['=', '"'] + md[k - 1].1 + seq!['"']
    }
}

/// The rendering of node `i`.
pub open spec fn render_node(nodes: Seq<NodeV>, i: int) -> Seq<char>
    decreases nodes.len() - i, 1int, 0int,
        when 0 <= i < nodes.len()
{
    let n = nodes[i];
    if n.name.len() == 0 {
        n.content + render_kids(nodes, i, n.children, n.children.len() as int)
    } else if n.children.len() == 0 && n.content.len() == 0 {
        seq!['<'] + n.name + meta_text(n.metadata, n.metadata.len() as int) + seq!['/', '>']
    } else {
        seq!['<'] + n.name + meta_text(n.metadata, n.metadata.len() as int) + seq!['>'] + n.content
            + render_kids(nodes, i, n.children, n.children.len() as int) + seq!['<', '/'] + n.name
            + seq!['>']
    }
}

/// The concatenated rendering of the first `k` children of node `i`.
pub open spec fn render_kids(nodes: Seq<NodeV>, i: int, cs: Seq<int>, k: int) -> Seq<char>
    decreases nodes.len() - i, 0int, k,
        when 0 <= i < nodes.len()
{
    if k <= 0 || k > cs.len() {
        Seq::empty()
    } else {
        render_kids(nodes, i, cs, k - 1) + if i < cs[k - 1] < nodes.len() {
            render_node(nodes, cs[k - 1])
        } else {
            Seq::empty()
        }
    }
}

/// Build the attribute text of all pairs.
fn render_meta(md: &Vec<(Vec<char>, Vec<char>)>) -> (r: Vec<char>)
    ensures
        r@ == meta_text(md.deep_view(), md.deep_view().len() as int),
{
    let ghost dv = md.deep_view();
    let mut out: Vec<char> = Vec::new();
    let mut k: usize = 0;
    while k < md.len()
        invariant
            k <= md.len(),
            dv == md.deep_view(),
            dv.len() == md@.len(),
            out@ == meta_text(dv, k as int),
        decreases md.len() - k,
    {
        proof {
            assert(dv[k as int] == md@[k as int].deep_view());
            assert(dv[k as int].0 =~= md@[k as int].0@);
            assert(dv[k as int].1 =~= md@[k as int].1@);
        }
        out.push(' ');
        append_chars(&mut out, &md[k].0);
        out.push('=');
        out.push('"');
        append_chars(&mut out, &md[k].1);
        out.push('"');
        k += 1;
        proof {
            assert(out@ =~= meta_text(dv, k as int));
        }
    }
    out
}

impl PageTree {
    /// Render node `i` and everything beneath it.
    pub fn render(&self, i: usize) -> (r: Vec<char>)
        requires
            wf(self@.nodes),
            i < self@.nodes.len(),
        ensures
            r@ == render_node(self@.nodes, i as int),
        decreases self@.nodes.len() - i,
    {
        let ghost nodes = self@.nodes;
        let ghost nv = nodes[i as int];
        proof {
            assert(self.nodes@[i as int].deep_view() == nv);
            assert(wf_node(nodes, i as int));
        }
        let mut out: Vec<char> = Vec::new();
        let named = self.nodes[i].name.len() > 0;
        let bare = self.nodes[i].children.len() == 0 && self.nodes[i].content.len() == 0;
        proof {
            assert(nv.children.len() == self.nodes@[i as int].children@.len());
        }
        if !named {
            append_chars(&mut out, &self.nodes[i].content);
            self.render_kids_into(i, &mut out);
            proof {
                assert(out@ =~= render_node(nodes, i as int));
            }
        } else if bare {
            let meta = render_meta(&self.nodes[i].metadata);
            out.push('<');
            append_chars(&mut out, &self.nodes[i].name);
            append_chars(&mut out, &meta);
            out.push('/');
            out.push('>');
            proof {
                assert(nv.metadata == self.nodes@[i as int].metadata.deep_view());
                assert(out@ =~= render_node(nodes, i as int));
            }
        } else {
            let meta = render_meta(&self.nodes[i].metadata);
            out.push('<');
            append_chars(&mut out, &self.nodes[i].name);
            append_chars(&mut out, &meta);
            out.push('>');
            append_chars(&mut out, &self.nodes[i].content);
            self.render_kids_into(i, &mut out);
            out.push('<');
            out.push('/');
            append_chars(&mut out, &self.nodes[i].name);
            out.push('>');
            proof {
                assert(nv.metadata == self.nodes@[i as int].metadata.deep_view());
                assert(out@ =~= render_node(nodes, i as int));
            }
        }
        out
    }

    /// Append the renderings of all children of node `i`.
    fn render_kids_into(&self, i: usize, out: &mut Vec<char>)
        requires
            wf(self@.nodes),
            i < self@.nodes.len(),
        ensures
            final(out)@ == old(out)@ + render_kids(
                self@.nodes,
                i as int,
                self@.nodes[i as int].children,
                self@.nodes[i as int].children.len() as int,
            ),
        decreases self@.nodes.len() - i, 0int,
    {
        let ghost nodes = self@.nodes;
        let ghost cs = nodes[i as int].children;
        proof {
            assert(self.nodes@[i as int].deep_view() == nodes[i as int]);
            assert(wf_node(nodes, i as int));
        }
        let count = self.nodes[i].children.len();
        let mut k: usize = 0;
        while k < count
            invariant
                k <= count,
                wf(nodes),
                nodes == self@.nodes,
                i < nodes.len(),
                cs == nodes[i as int].children,
                count == cs.len(),
                out@ == old(out)@ + render_kids(nodes, i as int, cs, k as int),
            decreases count - k,
        {
            let c = self.nodes[i].children[k];
            proof {
                assert(cs[k as int] == c as int);
                assert(wf_node(nodes, i as int));
                assert(i < cs[k as int] < nodes.len());
            }
            let piece = self.render(c);
            append_chars(out, &piece);
            k += 1;
            proof {
                assert(out@ =~= old(out)@ + render_kids(nodes, i as int, cs, k as int));
            }
        }
    }
}

} // verus!
