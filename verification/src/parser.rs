//! The page parser: one per document.
//!
//! A `Parser` owns the page tree under construction, an immutable snapshot of
//! the input files (for the file directives), and the directory context of
//! the file being processed. `parse_yaml` folds a whole document stream into
//! the root node; rendering then serializes the root.

use vstd::prelude::*;
use crate::diag::{LogEntry, LogV};
use crate::engine::{apply_docs, docs_of, parse_documents, st_log, apply_docs_exec};
use crate::interp::snippet;
use crate::node::{PageTree, wf};
use crate::paths::resolve_path;
use crate::render::render_node;
use crate::text::{chars_of_str, string_of_chars};

verus! {

#[verifier::external_type_specification]
#[verifier::external_body]
pub struct ExProgressBar(indicatif::ProgressBar);

/// Relies on indicatif's ProgressBar::inc: advances the bar's position.
#[verifier::external_body]
fn progress_inc(pb: &std::sync::Arc<indicatif::ProgressBar>) {
    pb.inc(1);
}

/// Relies on indicatif's ProgressBar::tick: redraws the bar.
#[verifier::external_body]
fn progress_tick(pb: &std::sync::Arc<indicatif::ProgressBar>) {
    pb.tick();
}

/// Builds one page's tree from document streams.
pub struct Parser {
    /// The tree under construction; node 0 is the page root.
    pub tree: PageTree,
    /// The input snapshot: (relative path, text) of every file under the
    /// input root.
    pub files: Vec<(Vec<char>, Vec<char>)>,
    /// Directory of the file being processed, as segments relative to the
    /// input root.
    pub root_dir: Option<Vec<Vec<char>>>,
    /// Progress signal, bumped once per completed document stream.
    pub progress: Option<std::sync::Arc<indicatif::ProgressBar>>,
}

impl Parser {
    /// The parser's structural invariant.
    pub open spec fn inv(&self) -> bool {
        &&& wf(self.tree@.nodes)
        &&& self.tree@.nodes.len() > 0
    }

    /// A fresh parser: an empty root, no snapshot, no directory context.
    pub fn new() -> (p: Parser)
        ensures
            p.inv(),
            p.tree@.nodes == seq![crate::node::blank_node(None)],
            p.tree@.log == Seq::<LogV>::empty(),
            p.tree@.copies == Seq::<Seq<char>>::empty(),
            p.files.deep_view() == Seq::<(Seq<char>, Seq<char>)>::empty(),
            p.root_dir is None,
    {
        let p = Parser { tree: PageTree::new(), files: Vec::new(), root_dir: None, progress: None };
        proof {
            assert(p.files.deep_view() =~= Seq::<(Seq<char>, Seq<char>)>::empty());
        }
        p
    }

    /// A fresh parser whose root already holds the given bindings, verbatim.
    pub fn new_with_vars(vars: Vec<(Vec<char>, Vec<char>)>) -> (p: Parser)
        ensures
            p.inv(),
            p.tree@.nodes.len() == 1,
            p.tree@.nodes[0].vars == vars.deep_view(),
            p.tree@.nodes[0].name == Seq::<char>::empty(),
            p.tree@.nodes[0].content == Seq::<char>::empty(),
            p.tree@.nodes[0].children == Seq::<int>::empty(),
            p.tree@.nodes[0].metadata == Seq::<(Seq<char>, Seq<char>)>::empty(),
            p.tree@.log == Seq::<LogV>::empty(),
            p.tree@.copies == Seq::<Seq<char>>::empty(),
            p.files.deep_view() == Seq::<(Seq<char>, Seq<char>)>::empty(),
            p.root_dir is None,
    {
        let mut p = Parser::new();
        let mut k: usize = 0;
        proof {
            assert(p.tree@.nodes[0].vars =~= vars.deep_view().take(0));
        }
        while k < vars.len()
            invariant
                k <= vars@.len(),
                p.inv(),
                p.tree@.nodes.len() == 1,
                p.tree@.nodes[0].vars == vars.deep_view().take(k as int),
                p.tree@.nodes[0].name == Seq::<char>::empty(),
                p.tree@.nodes[0].content == Seq::<char>::empty(),
                p.tree@.nodes[0].children == Seq::<int>::empty(),
                p.tree@.nodes[0].metadata == Seq::<(Seq<char>, Seq<char>)>::empty(),
                p.tree@.log == Seq::<LogV>::empty(),
                p.tree@.copies == Seq::<Seq<char>>::empty(),
                p.files.deep_view() == Seq::<(Seq<char>, Seq<char>)>::empty(),
                p.root_dir is None,
            decreases vars@.len() - k,
        {
            let kk = crate::node::clone_chars(&vars[k].0);
            let vv = crate::node::clone_chars(&vars[k].1);
            let ghost kv = (kk@, vv@);
            p.tree.push_var(0, kk, vv);
            k += 1;
            proof {
                assert(vars.deep_view()[k - 1] == vars@[k - 1].deep_view());
                assert(vars.deep_view()[k - 1].0 =~= vars@[k - 1].0@);
                assert(vars.deep_view()[k - 1].1 =~= vars@[k - 1].1@);
                assert(p.tree@.nodes[0].vars =~= vars.deep_view().take(k as int));
            }
        }
        proof {
            assert(vars.deep_view().take(vars@.len() as int) =~= vars.deep_view());
        }
        p
    }

    /// Install the input snapshot the file directives read from.
    pub fn set_files(&mut self, files: Vec<(Vec<char>, Vec<char>)>)
        requires
            old(self).inv(),
        ensures
            final(self).inv(),
            final(self).tree@ == old(self).tree@,
            final(self).files == files,
            final(self).root_dir == old(self).root_dir,
    {
        self.files = files;
    }

    /// Add one file to the input snapshot.
    pub fn add_file(&mut self, path: &str, content: &str)
        requires
            old(self).inv(),
        ensures
            final(self).inv(),
            final(self).tree@ == old(self).tree@,
            final(self).files.deep_view() == old(self).files.deep_view().push((path@, content@)),
            final(self).root_dir == old(self).root_dir,
    {
        let p = chars_of_str(path);
        let c = chars_of_str(content);
        let ghost pv = p@;
        let ghost cv = c@;
        self.files.push((p, c));
        proof {
            assert(self.files.deep_view() =~~= old(self).files.deep_view().push((pv, cv)));
        }
    }

    /// Set the directory context from a path string, resolved in the
    /// sandbox; an unresolvable string leaves no context.
    pub fn set_root_dir(&mut self, d: &str)
        requires
            old(self).inv(),
        ensures
            final(self).inv(),
            final(self).tree@ == old(self).tree@,
            final(self).files == old(self).files,
            final(self).root_dir.deep_view() == match resolve_path(None, d@) {
                Ok(c) => Some(c),
                Err(_) => None::<Seq<Seq<char>>>,
            },
    {
        let dv = chars_of_str(d);
        let none_dir: Option<Vec<Vec<char>>> = None;
        match crate::paths::resolve_path_exec(&none_dir, &dv) {
            Ok(c) => {
                self.root_dir = Some(c);
            },
            Err(_) => {
                self.root_dir = None;
            },
        }
    }

    /// Attach a progress signal.
    pub fn add_progressbar(&mut self, pb: std::sync::Arc<indicatif::ProgressBar>)
        requires
            old(self).inv(),
        ensures
            final(self).inv(),
            final(self).tree@ == old(self).tree@,
            final(self).files == old(self).files,
            final(self).root_dir == old(self).root_dir,
    {
        self.progress = Some(pb);
    }

    /// Fold a document stream into the page root. Yields false and logs when
    /// the text does not parse; the tree is then unchanged. On success the
    /// progress signal, if any, is bumped once.
    pub fn parse_yaml(&mut self, yaml: &str) -> (ok: bool)
        requires
            old(self).inv(),
        ensures
            final(self).inv(),
            final(self).files == old(self).files,
            final(self).root_dir == old(self).root_dir,
            match docs_of(yaml@) {
                Some(docs) => ok && final(self).tree@ == apply_docs(
                    old(self).files.deep_view(),
                    old(self).root_dir.deep_view(),
                    Seq::empty(),
                    old(self).tree@,
                    0,
                    docs,
                ),
                None => !ok && final(self).tree@ == st_log(
                    old(self).tree@,
                    LogV::ParseFailed(snippet(yaml@)),
                ),
            },
    {
        match parse_documents(yaml) {
            Some(docs) => {
                let empty_ipr: Vec<Vec<char>> = Vec::new();
                proof {
                    assert(empty_ipr.deep_view() =~= Seq::<Seq<char>>::empty());
                    assert(docs@.skip(0) =~= docs@);
                }
                apply_docs_exec(
                    &mut self.tree,
                    &self.files,
                    &self.root_dir,
                    &empty_ipr,
                    0,
                    &docs,
                    0,
                );
                match &self.progress {
                    Some(pb) => {
                        progress_inc(pb);
                        progress_tick(pb);
                    },
                    None => {},
                }
                true
            },
            None => {
                let cv = chars_of_str(yaml);
                let snip = if cv.len() > 40 {
                    crate::interp::copy_range(&cv, 0, 39)
                } else {
                    cv
                };
                proof {
                    assert(snip@ =~= snippet(yaml@));
                }
                self.tree.push_log(LogEntry::ParseFailed(snip));
                false
            },
        }
    }

    /// Render the whole page.
    pub fn render_page(&self) -> (r: String)
        requires
            self.inv(),
        ensures
            r@ == render_node(self.tree@.nodes, 0),
    {
        let chars = self.tree.render(0);
        string_of_chars(&chars)
    }

    /// Render the whole output document: the doctype line, then the page.
    pub fn render_document(&self) -> (r: String)
        requires
            self.inv(),
        ensures
            r@ == "<!DOCTYPE html>\n"@ + render_node(self.tree@.nodes, 0),
    {
        let mut out = chars_of_str("<!DOCTYPE html>\n");
        let body = self.tree.render(0);
        crate::interp::append_chars(&mut out, &body);
        string_of_chars(&out)
    }

    /// Give up the parser and keep its finished tree.
    pub fn consume_into_root_node(p: Parser) -> (t: PageTree)
        ensures
            t@ == p.tree@,
    {
        p.tree
    }
}

impl PageTree {
    /// Render node `i` as a `String`.
    pub fn render_string(&self, i: usize) -> (r: String)
        requires
            wf(self@.nodes),
            i < self@.nodes.len(),
        ensures
            r@ == render_node(self@.nodes, i as int),
    {
        let chars = self.render(i);
        string_of_chars(&chars)
    }

    /// The root node's bindings, for handing a finished tree's variables on.
    pub fn consume_into_vars(t: PageTree) -> (r: Vec<(Vec<char>, Vec<char>)>)
        requires
            t@.nodes.len() > 0,
        ensures
            r.deep_view() == t@.nodes[0].vars,
    {
        let mut nodes = t.nodes;
        let root = nodes.remove(0);
        proof {
            assert(root.deep_view() == t@.nodes[0]);
        }
        root.vars
    }
}

} // verus!
