//! The path sandbox.
//!
//! File directives take a path string. A leading `/` roots it at the sandbox
//! root; otherwise it is relative to the directory of the file being
//! processed. The path is split on `/` and normalized lexically: empty and
//! `.` segments vanish, `..` pops a segment, and popping past the root is a
//! sandbox violation. A resolved path is therefore always a plain descendant
//! of the root.

use vstd::prelude::*;
use crate::diag::{LogEntry, LogV};
use crate::node::clone_chars;
use crate::interp::append_chars;

verus! {

/// Position of the first `/`.
pub open spec fn first_slash(s: Seq<char>) -> Option<int>
    decreases s.len(),
{
    if s.len() == 0 {
        None
    } else if s[0] == '/' {
        Some(0)
    } else {
        match first_slash(s.skip(1)) {
            Some(j) => Some(j + 1),
            None => None,
        }
    }
}

/// A found slash lies inside the text.
pub proof fn lemma_first_slash_bounds(s: Seq<char>)
    ensures
        match first_slash(s) {
            Some(j) => 0 <= j < s.len() && s[j] == '/',
            None => true,
        },
    decreases s.len(),
{
    if s.len() != 0 && s[0] != '/' {
        lemma_first_slash_bounds(s.skip(1));
    }
}

/// The segments of a path, split on `/`.
pub open spec fn split_comps(s: Seq<char>) -> Seq<Seq<char>>
    decreases s.len(),
        via split_comps_dec
{
    match first_slash(s) {
        None => seq![s],
        Some(j) => seq![s.take(j)] + split_comps(s.skip(j + 1)),
    }
}

#[via_fn]
proof fn split_comps_dec(s: Seq<char>) {
    lemma_first_slash_bounds(s);
}

/// Normalization: fold the segments of `comps` onto `acc`; `None` means the
/// path popped past the root.
pub open spec fn norm(acc: Seq<Seq<char>>, comps: Seq<Seq<char>>) -> Option<Seq<Seq<char>>>
    decreases comps.len(),
{
    if comps.len() == 0 {
        Some(acc)
    } else {
        let c = comps[0];
        if c.len() == 0 || c == seq!['.'] {
            norm(acc, comps.skip(1))
        } else if c == seq!['.', '.'] {
            if acc.len() == 0 {
                None
            } else {
                norm(acc.drop_last(), comps.skip(1))
            }
        } else {
            norm(acc.push(c), comps.skip(1))
        }
    }
}

/// Join segments with `/`.
pub open spec fn join(comps: Seq<Seq<char>>) -> Seq<char>
    decreases comps.len(),
{
    if comps.len() == 0 {
        Seq::empty()
    } else if comps.len() == 1 {
        comps[0]
    } else {
        comps[0] + seq!['/'] + join(comps.skip(1))
    }
}

/// Resolution of a path string against the sandbox: the normalized segments,
/// or the diagnostic that rejects it. `dir` is the directory of the file
/// being processed, as segments relative to the root.
pub open spec fn resolve_path(dir: Option<Seq<Seq<char>>>, path: Seq<char>) -> Result<
    Seq<Seq<char>>,
    LogV,
> {
    if path.len() == 0 {
        Err(LogV::BlankPath)
    } else if path[0] == '/' {
        if path.len() > 1 && path[1] == '/' {
            Err(LogV::PathOutsideRoot(path))
        } else {
            match norm(Seq::empty(), split_comps(path.skip(1))) {
                Some(c) => Ok(c),
                None => Err(LogV::PathOutsideRoot(path)),
            }
        }
    } else {
        let base = match dir {
            Some(d) => d,
            None => Seq::empty(),
        };
        match norm(base, split_comps(path)) {
            Some(c) => Ok(c),
            None => Err(LogV::PathOutsideRoot(path)),
        }
    }
}

/// No segment of a normalized path is empty, `.`, or `..`.
pub open spec fn plain_segments(comps: Seq<Seq<char>>) -> bool {
    forall|i: int|
        0 <= i < comps.len() ==> (#[trigger] comps[i]).len() > 0 && comps[i] != seq!['.']
            && comps[i] != seq!['.', '.']
}

/// Normalization yields only plain segments, so the result never points
/// above the root it was resolved against.
pub proof fn lemma_norm_plain(acc: Seq<Seq<char>>, comps: Seq<Seq<char>>)
    requires
        plain_segments(acc),
    ensures
        match norm(acc, comps) {
            Some(r) => plain_segments(r),
            None => true,
        },
    decreases comps.len(),
{
    if comps.len() != 0 {
        let c = comps[0];
        if c.len() == 0 || c == seq!['.'] {
            lemma_norm_plain(acc, comps.skip(1));
        } else if c == seq!['.', '.'] {
            if acc.len() != 0 {
                assert(plain_segments(acc.drop_last())) by {
                    assert forall|i: int|
                        0 <= i < acc.drop_last().len() implies (#[trigger] acc.drop_last()[i]).len()
                        > 0 && acc.drop_last()[i] != seq!['.'] && acc.drop_last()[i] != seq![
                        '.',
                        '.',
                    ] by {
                        assert(acc.drop_last()[i] == acc[i]);
                    }
                }
                lemma_norm_plain(acc.drop_last(), comps.skip(1));
            }
        } else {
            assert(plain_segments(acc.push(c))) by {
                assert forall|i: int|
                    0 <= i < acc.push(c).len() implies (#[trigger] acc.push(c)[i]).len() > 0
                    && acc.push(c)[i] != seq!['.'] && acc.push(c)[i] != seq!['.', '.'] by {
                    if i < acc.len() {
                        assert(acc.push(c)[i] == acc[i]);
                    } else {
                        assert(acc.push(c)[i] == c);
                    }
                }
            }
            lemma_norm_plain(acc.push(c), comps.skip(1));
        }
    }
}

/// A sandboxed resolution has only plain segments: it cannot escape the root.
pub proof fn lemma_resolve_plain(dir: Option<Seq<Seq<char>>>, path: Seq<char>)
    requires
        match dir {
            Some(d) => plain_segments(d),
            None => true,
        },
    ensures
        match resolve_path(dir, path) {
            Ok(c) => plain_segments(c),
            Err(_) => true,
        },
{
    assert(plain_segments(Seq::<Seq<char>>::empty()));
    if path.len() > 0 {
        if path[0] == '/' {
            if !(path.len() > 1 && path[1] == '/') {
                lemma_norm_plain(Seq::empty(), split_comps(path.skip(1)));
            }
        } else {
            match dir {
                Some(d) => lemma_norm_plain(d, split_comps(path)),
                None => lemma_norm_plain(Seq::empty(), split_comps(path)),
            }
        }
    }
}

/// Segment-exact copy of a segment list.
pub fn clone_comps(d: &Vec<Vec<char>>) -> (r: Vec<Vec<char>>)
    ensures
        r.deep_view() == d.deep_view(),
{
    let mut b: Vec<Vec<char>> = Vec::new();
    let mut k: usize = 0;
    proof {
        assert(b.deep_view() =~= d.deep_view().take(0));
    }
    while k < d.len()
        invariant
            k <= d@.len(),
            b@.len() == k,
            b.deep_view() == d.deep_view().take(k as int),
        decreases d@.len() - k,
    {
        let copy = clone_chars(&d[k]);
        proof {
            assert(d.deep_view()[k as int] =~= copy@);
            assert(copy.deep_view() =~= copy@);
        }
        b.push(copy);
        k += 1;
        proof {
            let bd = b.deep_view();
            let dd = d.deep_view().take(k as int);
            assert(bd.len() == k);
            assert(dd.len() == k);
            assert forall|i: int| 0 <= i < bd.len() implies bd[i] == dd[i] by {
            }
            assert(bd =~= dd);
        }
    }
    proof {
        assert(d.deep_view().take(d@.len() as int) =~= d.deep_view());
    }
    b
}

/// Scan for the first `/` at or after `from`.
fn first_slash_exec(s: &Vec<char>, from: usize) -> (r: Option<usize>)
    requires
        from <= s@.len(),
    ensures
        match r {
            Some(j) => from <= j < s@.len() && first_slash(s@.skip(from as int)) == Some(
                j - from,
            ),
            None => first_slash(s@.skip(from as int)) is None,
        },
{
    let mut j: usize = from;
    while j < s.len()
        invariant
            from <= j <= s@.len(),
            first_slash(s@.skip(from as int)) == match first_slash(s@.skip(j as int)) {
                Some(x) => Some(x + (j - from)),
                None => None,
            },
        decreases s@.len() - j,
    {
        proof {
            assert(s@.skip(j as int)[0] == s@[j as int]);
            assert(s@.skip(j as int).skip(1) =~= s@.skip(j + 1));
        }
        if s[j] == '/' {
            proof {
                assert(first_slash(s@.skip(j as int)) == Some(0int));
            }
            return Some(j);
        }
        j += 1;
    }
    proof {
        assert(s@.skip(s@.len() as int) =~= Seq::<char>::empty());
    }
    None
}

/// Split `s[from..]` on `/`, appending the segments.
fn split_from(s: &Vec<char>, from: usize, out: &mut Vec<Vec<char>>)
    requires
        from <= s@.len(),
    ensures
        final(out).deep_view() == old(out).deep_view() + split_comps(s@.skip(from as int)),
    decreases s@.len() - from,
{
    let ghost sv = s@.skip(from as int);
    match first_slash_exec(s, from) {
        None => {
            let piece = crate::interp::copy_range(s, from, s.len());
            proof {
                assert(piece@ =~= sv);
            }
            out.push(piece);
            proof {
                assert(out.deep_view() =~~= old(out).deep_view() + split_comps(sv));
            }
        },
        Some(j) => {
            let ghost rel = j - from;
            let piece = crate::interp::copy_range(s, from, j);
            proof {
                assert(piece@ =~= sv.take(rel));
                assert(sv.skip(rel + 1) =~= s@.skip(j + 1));
            }
            out.push(piece);
            let ghost mid = out.deep_view();
            proof {
                vstd::std_specs::vec::axiom_spec_len(s);
                assert(mid =~~= old(out).deep_view() + seq![sv.take(rel)]);
            }
            split_from(s, j + 1, out);
            proof {
                assert(out.deep_view() =~~= old(out).deep_view() + split_comps(sv));
            }
        },
    }
}

/// Whether a segment is `.`.
fn is_dot(c: &Vec<char>) -> (r: bool)
    ensures
        r == (c@ == seq!['.']),
{
    if c.len() == 1 && c[0] == '.' {
        proof {
            assert(c@ =~= seq!['.']);
        }
        true
    } else {
        proof {
            if c@.len() == 1 && c@[0] == '.' {
                assert(c@ =~= seq!['.']);
            }
        }
        false
    }
}

/// Whether a segment is `..`.
fn is_dotdot(c: &Vec<char>) -> (r: bool)
    ensures
        r == (c@ == seq!['.', '.']),
{
    if c.len() == 2 && c[0] == '.' && c[1] == '.' {
        proof {
            assert(c@ =~= seq!['.', '.']);
        }
        true
    } else {
        proof {
            if c@.len() == 2 && c@[0] == '.' && c@[1] == '.' {
                assert(c@ =~= seq!['.', '.']);
            }
        }
        false
    }
}

/// Normalize `comps` onto `acc`; `None` means the path escaped the root.
fn norm_exec(acc: Vec<Vec<char>>, comps: &Vec<Vec<char>>) -> (r: Option<Vec<Vec<char>>>)
    ensures
        match r {
            Some(v) => norm(acc.deep_view(), comps.deep_view()) == Some(v.deep_view()),
            None => norm(acc.deep_view(), comps.deep_view()) is None,
        },
{
    let ghost full = comps.deep_view();
    let mut cur = acc;
    let mut k: usize = 0;
    proof {
        assert(full.skip(0) =~= full);
    }
    while k < comps.len()
        invariant
            k <= comps@.len(),
            full == comps.deep_view(),
            full.len() == comps@.len(),
            norm(acc.deep_view(), full) == norm(cur.deep_view(), full.skip(k as int)),
        decreases comps@.len() - k,
    {
        proof {
            assert(full.skip(k as int)[0] == full[k as int]);
            assert(full[k as int] == comps@[k as int].deep_view());
            assert(comps@[k as int].deep_view() =~= comps@[k as int]@);
            assert(full.skip(k as int).skip(1) =~= full.skip(k + 1));
        }
        let c = &comps[k];
        if c.len() == 0 || is_dot(c) {
            // segment vanishes
        } else if is_dotdot(c) {
            if cur.len() == 0 {
                proof {
                    assert(cur.deep_view().len() == 0);
                }
                return None;
            }
            let ghost pre = cur.deep_view();
            cur.pop();
            proof {
                assert(cur.deep_view() =~= pre.drop_last());
            }
        } else {
            let ghost pre = cur.deep_view();
            let copy = clone_chars(c);
            cur.push(copy);
            proof {
                assert(cur.deep_view() =~= pre.push(comps@[k as int]@));
            }
        }
        k += 1;
    }
    proof {
        assert(full.skip(full.len() as int) =~= Seq::<Seq<char>>::empty());
    }
    Some(cur)
}

/// Join segments with `/`.
pub fn join_exec(comps: &Vec<Vec<char>>) -> (r: Vec<char>)
    ensures
        r@ == join(comps.deep_view()),
{
    let ghost full = comps.deep_view();
    let mut out: Vec<char> = Vec::new();
    join_from(comps, 0, &mut out);
    proof {
        assert(full.skip(0) =~= full);
        assert(out@ =~= join(full));
    }
    out
}

/// Append the joined form of `comps[from..]`.
fn join_from(comps: &Vec<Vec<char>>, from: usize, out: &mut Vec<char>)
    requires
        from <= comps@.len(),
    ensures
        final(out)@ == old(out)@ + join(comps.deep_view().skip(from as int)),
    decreases comps@.len() - from,
{
    let ghost full = comps.deep_view();
    let ghost sv = full.skip(from as int);
    if from >= comps.len() {
        proof {
            assert(sv =~= Seq::<Seq<char>>::empty());
            assert(final(out)@ =~= old(out)@ + join(sv));
        }
        return;
    }
    proof {
        assert(sv[0] == full[from as int]);
        assert(full[from as int] =~= comps@[from as int]@);
    }
    append_chars(out, &comps[from]);
    if from + 1 < comps.len() {
        out.push('/');
        proof {
            assert(sv.skip(1) =~= full.skip(from + 1));
        }
        join_from(comps, from + 1, out);
        proof {
            assert(sv.len() > 1);
            assert(final(out)@ =~= old(out)@ + join(sv));
        }
    } else {
        proof {
            assert(sv.len() == 1);
            assert(final(out)@ =~= old(out)@ + join(sv));
        }
    }
}

/// Resolve a path string inside the sandbox; yields the normalized segments
/// or the diagnostic that rejects the path.
pub fn resolve_path_exec(dir: &Option<Vec<Vec<char>>>, path: &Vec<char>) -> (r: Result<
    Vec<Vec<char>>,
    LogEntry,
>)
    ensures
        match r {
            Ok(c) => resolve_path(dir.deep_view(), path@) == Ok::<_, LogV>(c.deep_view()),
            Err(e) => resolve_path(dir.deep_view(), path@) == Err::<Seq<Seq<char>>, _>(e@),
        },
{
    if path.len() == 0 {
        return Err(LogEntry::BlankPath);
    }
    if path[0] == '/' {
        if path.len() > 1 && path[1] == '/' {
            return Err(LogEntry::PathOutsideRoot(clone_chars(path)));
        }
        let mut comps: Vec<Vec<char>> = Vec::new();
        split_from(path, 1, &mut comps);
        proof {
            assert(comps.deep_view() =~= Seq::<Seq<char>>::empty() + split_comps(path@.skip(1)));
            assert(comps.deep_view() =~= split_comps(path@.skip(1)));
        }
        let empty_acc: Vec<Vec<char>> = Vec::new();
        proof {
            assert(empty_acc.deep_view() =~= Seq::<Seq<char>>::empty());
        }
        match norm_exec(empty_acc, &comps) {
            Some(c) => Ok(c),
            None => Err(LogEntry::PathOutsideRoot(clone_chars(path))),
        }
    } else {
        let mut comps: Vec<Vec<char>> = Vec::new();
        proof {
            assert(path@.skip(0) =~= path@);
        }
        split_from(path, 0, &mut comps);
        proof {
            assert(comps.deep_view() =~= split_comps(path@));
        }
        let base: Vec<Vec<char>> = match dir {
            Some(d) => clone_comps(d),
            None => Vec::new(),
        };
        proof {
            match dir {
                Some(d) => {
                    assert(base.deep_view() =~= dir.deep_view().unwrap());
                },
                None => {
                    assert(base.deep_view() =~= Seq::<Seq<char>>::empty());
                },
            }
        }
        match norm_exec(base, &comps) {
            Some(c) => Ok(c),
            None => Err(LogEntry::PathOutsideRoot(clone_chars(path))),
        }
    }
}

} // verus!

// Output-path mirroring.

verus! {

/// Position of the last `.` that follows every `/`, if any: the extension
/// separator of the path's final segment.
pub open spec fn ext_dot(s: Seq<char>) -> Option<int>
    decreases s.len(),
{
    if s.len() == 0 {
        None
    } else if s.last() == '.' {
        Some(s.len() - 1)
    } else if s.last() == '/' {
        None
    } else {
        ext_dot(s.drop_last())
    }
}

/// A page's output path: the input-relative path with its extension replaced
/// by `html` (or `.html` appended when the final segment has none).
pub open spec fn html_name(s: Seq<char>) -> Seq<char> {
    match ext_dot(s) {
        Some(d) => s.take(d) + ".html"@,
        None => s + ".html"@,
    }
}

/// Mirror a page's relative path onto its output name.
pub fn output_page_path(p: &Vec<char>) -> (r: Vec<char>)
    ensures
        r@ == html_name(p@),
{
    let mut j: usize = p.len();
    proof {
        assert(p@.take(p@.len() as int) =~= p@);
    }
    while j > 0
        invariant
            j <= p@.len(),
            ext_dot(p@) == ext_dot(p@.take(j as int)),
        decreases j,
    {
        proof {
            assert(p@.take(j as int).last() == p@[j - 1]);
            assert(p@.take(j as int).drop_last() =~= p@.take(j - 1));
        }
        if p[j - 1] == '.' {
            proof {
                assert(ext_dot(p@.take(j as int)) == Some(j - 1));
            }
            let mut out = crate::interp::copy_range(p, 0, j - 1);
            append_chars(&mut out, &crate::text::chars_of_str(".html"));
            proof {
                assert(p@.take(j - 1) =~= p@.subrange(0, j - 1));
                assert(out@ =~= html_name(p@));
            }
            return out;
        }
        if p[j - 1] == '/' {
            proof {
                assert(ext_dot(p@.take(j as int)) is None);
            }
            let mut out = clone_chars(p);
            append_chars(&mut out, &crate::text::chars_of_str(".html"));
            proof {
                assert(out@ =~= html_name(p@));
            }
            return out;
        }
        j -= 1;
    }
    proof {
        assert(p@.take(0) =~= Seq::<char>::empty());
        assert(ext_dot(p@) is None);
    }
    let mut out = clone_chars(p);
    append_chars(&mut out, &crate::text::chars_of_str(".html"));
    proof {
        assert(out@ =~= html_name(p@));
    }
    out
}

} // verus!
