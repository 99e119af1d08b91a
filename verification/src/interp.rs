//! The string interpolator.
//!
//! `{name}` inside any text is a variable reference: the name is itself
//! interpolated (so names may be built from other variables), the result is
//! resolved along the scope chain, and the binding's value is substituted
//! without further interpolation. A backslash consumes the character after it
//! and emits it verbatim, so `\{` is a literal brace and `\\` a literal
//! backslash; backslashes pair up rather than cascade. Braces inside a
//! reference nest: an inner `{` must be matched by a `}` before the reference
//! closes. A reference still open at the end of the input stops the scan and
//! logs an error.

use vstd::prelude::*;
use crate::diag::{LogEntry, LogV};
use crate::node::{NodeV, PageTree, TreeV};
use crate::node::{wf, lookup_text, lookup_log};

verus! {

/// Shift a relative match position by one.
pub open spec fn plus1(o: Option<int>) -> Option<int> {
    match o {
        Some(j) => Some(j + 1),
        None => None,
    }
}

/// Position of the `}` that closes the currently open reference, given how
/// many inner braces are open; `None` when the reference never closes.
pub open spec fn find_close(s: Seq<char>, depth: int) -> Option<int>
    decreases s.len(),
{
    if s.len() == 0 {
        None
    } else if s[0] == '}' {
        if depth == 0 {
            Some(0)
        } else {
            plus1(find_close(s.skip(1), depth - 1))
        }
    } else if s[0] == '{' {
        plus1(find_close(s.skip(1), depth + 1))
    } else {
        plus1(find_close(s.skip(1), depth))
    }
}

/// A successful match lies inside the text, on a closing brace.
pub proof fn lemma_find_close_bounds(s: Seq<char>, depth: int)
    ensures
        match find_close(s, depth) {
            Some(j) => 0 <= j < s.len() && s[j] == '}',
            None => true,
        },
    decreases s.len(),
{
    if s.len() != 0 && !(s[0] == '}' && depth == 0) {
        if s[0] == '}' {
            lemma_find_close_bounds(s.skip(1), depth - 1);
        } else if s[0] == '{' {
            lemma_find_close_bounds(s.skip(1), depth + 1);
        } else {
            lemma_find_close_bounds(s.skip(1), depth);
        }
    }
}

/// A bounded prefix of the offending text, for diagnostics.
pub open spec fn snippet(s: Seq<char>) -> Seq<char> {
    if s.len() > 40 {
        s.take(39)
    } else {
        s
    }
}

/// The interpolation of `s` at node `i`: the resolved text together with the
/// diagnostics the scan emits, in order.
pub open spec fn interp(nodes: Seq<NodeV>, i: int, s: Seq<char>) -> (Seq<char>, Seq<LogV>)
    decreases s.len(),
        via interp_dec
{
    if s.len() == 0 {
        (Seq::empty(), Seq::empty())
    } else if s[0] == '\\' {
        if s.len() == 1 {
            (Seq::empty(), Seq::empty())
        } else {
            let r = interp(nodes, i, s.skip(2));
            (seq![s[1]] + r.0, r.1)
        }
    } else if s[0] == '{' {
        match find_close(s.skip(1), 0) {
            None => (Seq::empty(), seq![LogV::UnclosedRef(snippet(s))]),
            Some(j) => {
                let inner = interp(nodes, i, s.skip(1).take(j));
                let rest = interp(nodes, i, s.skip(j + 2));
                (
                    lookup_text(nodes, i, inner.0) + rest.0,
                    inner.1 + lookup_log(nodes, i, inner.0) + rest.1,
                )
            },
        }
    } else {
        let r = interp(nodes, i, s.skip(1));
        (seq![s[0]] + r.0, r.1)
    }
}

#[via_fn]
proof fn interp_dec(nodes: Seq<NodeV>, i: int, s: Seq<char>) {
    if s.len() != 0 && s[0] == '{' {
        lemma_find_close_bounds(s.skip(1), 0);
    }
}

/// The resolved text of an interpolation.
pub open spec fn interp_text(nodes: Seq<NodeV>, i: int, s: Seq<char>) -> Seq<char> {
    interp(nodes, i, s).0
}

/// The diagnostics of an interpolation.
pub open spec fn interp_log(nodes: Seq<NodeV>, i: int, s: Seq<char>) -> Seq<LogV> {
    interp(nodes, i, s).1
}

/// Copy of `s[a..b]`.
pub fn copy_range(s: &Vec<char>, a: usize, b: usize) -> (r: Vec<char>)
    requires
        a <= b <= s@.len(),
    ensures
        r@ == s@.subrange(a as int, b as int),
{
    let mut out: Vec<char> = Vec::new();
    let mut j: usize = a;
    while j < b
        invariant
            a <= j <= b <= s@.len(),
            out@ == s@.subrange(a as int, j as int),
        decreases b - j,
    {
        out.push(s[j]);
        j += 1;
        proof {
            assert(out@ =~= s@.subrange(a as int, j as int));
        }
    }
    out
}

/// Append `v` to `out`.
pub fn append_chars(out: &mut Vec<char>, v: &Vec<char>)
    ensures
        final(out)@ == old(out)@ + v@,
{
    let mut j: usize = 0;
    while j < v.len()
        invariant
            j <= v.len(),
            out@ == old(out)@ + v@.take(j as int),
        decreases v.len() - j,
    {
        out.push(v[j]);
        j += 1;
        proof {
            assert(out@ =~= old(out)@ + v@.take(j as int));
        }
    }
    proof {
        assert(old(out)@ + v@.take(v@.len() as int) =~= old(out)@ + v@);
    }
}

/// Scan for the `}` closing the reference that starts just before `start`.
fn find_close_exec(s: &Vec<char>, start: usize) -> (r: Option<usize>)
    requires
        start <= s@.len(),
    ensures
        match r {
            Some(cl) => start <= cl < s@.len() && find_close(s@.skip(start as int), 0) == Some(
                cl - start,
            ),
            None => find_close(s@.skip(start as int), 0) is None,
        },
{
    let mut j: usize = start;
    let mut depth: usize = 0;
    while j < s.len()
        invariant
            start <= j <= s@.len(),
            depth <= j - start,
            find_close(s@.skip(start as int), 0) == match find_close(
                s@.skip(j as int),
                depth as int,
            ) {
                Some(x) => Some(x + (j - start)),
                None => None,
            },
        decreases s@.len() - j,
    {
        let c = s[j];
        proof {
            assert(s@.skip(j as int)[0] == s@[j as int]);
            assert(s@.skip(j as int).skip(1) =~= s@.skip(j + 1));
        }
        if c == '}' {
            if depth == 0 {
                proof {
                    assert(find_close(s@.skip(j as int), 0) == Some(0int));
                }
                return Some(j);
            }
            depth -= 1;
        } else if c == '{' {
            depth += 1;
        }
        j += 1;
    }
    proof {
        assert(s@.skip(s@.len() as int) =~= Seq::<char>::empty());
    }
    None
}

/// The interpolation scanner, from position `from`, appending into `out`.
fn interp_from(t: &mut PageTree, i: usize, s: &Vec<char>, from: usize, out: &mut Vec<char>)
    requires
        wf(old(t)@.nodes),
        i < old(t)@.nodes.len(),
        from <= s@.len(),
    ensures
        final(t)@.nodes == old(t)@.nodes,
        final(t)@.copies == old(t)@.copies,
        final(out)@ == old(out)@ + interp_text(old(t)@.nodes, i as int, s@.skip(from as int)),
        final(t)@.log == old(t)@.log + interp_log(old(t)@.nodes, i as int, s@.skip(from as int)),
    decreases s@.len() - from,
{
    let ghost nodes = t@.nodes;
    let ghost sv = s@.skip(from as int);
    if from >= s.len() {
        proof {
            assert(sv =~= Seq::<char>::empty());
            assert(final(out)@ =~= old(out)@ + interp_text(nodes, i as int, sv));
            assert(final(t)@.log =~= old(t)@.log + interp_log(nodes, i as int, sv));
        }
        return;
    }
    let c = s[from];
    proof {
        assert(sv[0] == s@[from as int]);
    }
    if c == '\\' {
        if from + 1 >= s.len() {
            proof {
                assert(sv.len() == 1);
                assert(final(out)@ =~= old(out)@ + interp_text(nodes, i as int, sv));
                assert(final(t)@.log =~= old(t)@.log + interp_log(nodes, i as int, sv));
            }
            return;
        }
        out.push(s[from + 1]);
        proof {
            assert(sv[1] == s@[from + 1]);
            assert(sv.skip(2) =~= s@.skip(from + 2));
        }
        interp_from(t, i, s, from + 2, out);
        proof {
            assert(final(out)@ =~= old(out)@ + interp_text(nodes, i as int, sv));
        }
    } else if c == '{' {
        proof {
            assert(sv.skip(1) =~= s@.skip(from + 1));
        }
        match find_close_exec(s, from + 1) {
            None => {
                let snip = if s.len() - from > 40 {
                    copy_range(s, from, from + 39)
                } else {
                    copy_range(s, from, s.len())
                };
                proof {
                    assert(snip@ =~= snippet(sv));
                }
                t.push_log(LogEntry::UnclosedRef(snip));
                proof {
                    assert(final(out)@ =~= old(out)@ + interp_text(nodes, i as int, sv));
                    assert(final(t)@.log =~= old(t)@.log + interp_log(nodes, i as int, sv));
                }
            },
            Some(cl) => {
                let ghost j = cl - (from + 1);
                let innersrc = copy_range(s, from + 1, cl);
                proof {
                    assert(innersrc@ =~= sv.skip(1).take(j));
                    assert(innersrc@.skip(0) =~= innersrc@);
                }
                let mut name: Vec<char> = Vec::new();
                interp_from(t, i, &innersrc, 0, &mut name);
                proof {
                    assert(name@ =~= interp_text(nodes, i as int, sv.skip(1).take(j)));
                }
                let v = t.get_var(i, &name);
                append_chars(out, &v);
                proof {
                    assert(sv.skip(j + 2) =~= s@.skip(cl + 1));
                }
                interp_from(t, i, s, cl + 1, out);
                proof {
                    let inner = interp(nodes, i as int, sv.skip(1).take(j));
                    let rest = interp(nodes, i as int, sv.skip(j + 2));
                    assert(final(out)@ =~= old(out)@ + (lookup_text(nodes, i as int, inner.0)
                        + rest.0));
                    assert(final(t)@.log =~= old(t)@.log + (inner.1 + lookup_log(
                        nodes,
                        i as int,
                        inner.0,
                    ) + rest.1));
                }
            },
        }
    } else {
        out.push(c);
        proof {
            assert(sv.skip(1) =~= s@.skip(from + 1));
        }
        interp_from(t, i, s, from + 1, out);
        proof {
            assert(final(out)@ =~= old(out)@ + interp_text(nodes, i as int, sv));
        }
    }
}

/// State after appending the interpolation of `s` to node `i`'s content.
pub open spec fn st_add_content(t: TreeV, i: int, s: Seq<char>) -> TreeV {
    let r = interp(t.nodes, i, s);
    TreeV {
        nodes: t.nodes.update(i, NodeV { content: t.nodes[i].content + r.0, ..t.nodes[i] }),
        log: t.log + r.1,
        ..t
    }
}

/// State after setting node `i`'s name to the interpolation of `s`.
pub open spec fn st_set_name(t: TreeV, i: int, s: Seq<char>) -> TreeV {
    let r = interp(t.nodes, i, s);
    TreeV {
        nodes: t.nodes.update(i, NodeV { name: r.0, ..t.nodes[i] }),
        log: t.log + r.1,
        ..t
    }
}

/// State after binding the interpolation of `k` to the interpolation of `v`
/// in node `i`'s scope.
pub open spec fn st_register_var(t: TreeV, i: int, k: Seq<char>, v: Seq<char>) -> TreeV {
    let rk = interp(t.nodes, i, k);
    let rv = interp(t.nodes, i, v);
    TreeV {
        nodes: t.nodes.update(i, NodeV { vars: t.nodes[i].vars.push((rk.0, rv.0)), ..t.nodes[i] }),
        log: t.log + rk.1 + rv.1,
        ..t
    }
}

impl PageTree {
    /// Interpolate `s` in the scope of node `i`; appends the scan's
    /// diagnostics and returns the resolved text.
    pub fn parse_string(&mut self, i: usize, s: &Vec<char>) -> (r: Vec<char>)
        requires
            wf(old(self)@.nodes),
            i < old(self)@.nodes.len(),
        ensures
            final(self)@.nodes == old(self)@.nodes,
            final(self)@.copies == old(self)@.copies,
            r@ == interp_text(old(self)@.nodes, i as int, s@),
            final(self)@.log == old(self)@.log + interp_log(old(self)@.nodes, i as int, s@),
    {
        let mut out: Vec<char> = Vec::new();
        proof {
            assert(s@.skip(0) =~= s@);
        }
        interp_from(self, i, s, 0, &mut out);
        proof {
            assert(out@ =~= interp_text(old(self)@.nodes, i as int, s@));
        }
        out
    }

    /// Interpolate `s` at node `i` and append the result to its content.
    pub fn add_content(&mut self, i: usize, s: &Vec<char>)
        requires
            wf(old(self)@.nodes),
            i < old(self)@.nodes.len(),
        ensures
            final(self)@ == st_add_content(old(self)@, i as int, s@),
            final(self)@.nodes.len() == old(self)@.nodes.len(),
            wf(final(self)@.nodes),
    {
        let r = self.parse_string(i, s);
        self.add_content_unparsed(i, &r);
        proof {
            assert(self@ =~~= st_add_content(old(self)@, i as int, s@));
        }
    }

    /// Interpolate `s` at node `i` and make the result the node's name.
    pub fn set_name(&mut self, i: usize, s: &Vec<char>)
        requires
            wf(old(self)@.nodes),
            i < old(self)@.nodes.len(),
        ensures
            final(self)@ == st_set_name(old(self)@, i as int, s@),
            final(self)@.nodes.len() == old(self)@.nodes.len(),
            wf(final(self)@.nodes),
    {
        let r = self.parse_string(i, s);
        self.set_name_unparsed(i, r);
        proof {
            assert(self@ =~~= st_set_name(old(self)@, i as int, s@));
        }
    }

    /// Interpolate `k` and `v` at node `i` and bind the resolved key to the
    /// resolved value in that node's scope.
    pub fn register_var(&mut self, i: usize, k: &Vec<char>, v: &Vec<char>)
        requires
            wf(old(self)@.nodes),
            i < old(self)@.nodes.len(),
        ensures
            final(self)@ == st_register_var(old(self)@, i as int, k@, v@),
            final(self)@.nodes.len() == old(self)@.nodes.len(),
            wf(final(self)@.nodes),
    {
        let rk = self.parse_string(i, k);
        let rv = self.parse_string(i, v);
        self.push_var(i, rk, rv);
        proof {
            assert(self@ =~~= st_register_var(old(self)@, i as int, k@, v@));
        }
    }
}

} // verus!
