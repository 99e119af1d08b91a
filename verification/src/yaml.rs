//! The document value model.
//!
//! A parsed document is a tree of values: scalars, lists, key/value
//! mappings (order-preserving), and tagged values whose tag names a
//! directive. Numbers are carried by their textual form; the engine only
//! ever concatenates them into content.

use vstd::prelude::*;
use vstd::seq::axiom_seq_index_decreases;
use vstd::seq::axiom_seq_subrange_decreases;

verus! {

/// One document value.
pub enum Yaml {
    /// A null scalar; contributes nothing.
    Null,
    /// A boolean scalar.
    Bool(bool),
    /// A numeric scalar, by its textual form.
    Num(Vec<char>),
    /// A string scalar.
    Str(Vec<char>),
    /// A sequence of values.
    List(Vec<Yaml>),
    /// A mapping, in document order.
    Dict(Vec<(Yaml, Yaml)>),
    /// A tagged value: the tag text (with its leading `!`) and the argument.
    Tagged(Vec<char>, Box<Yaml>),
}

/// Structural size of a value, for recursion measures.
pub open spec fn yaml_size(y: Yaml) -> nat
    decreases y,
        via yaml_size_dec
{
    match y {
        Yaml::Null => 1,
        Yaml::Bool(_) => 1,
        Yaml::Num(_) => 1,
        Yaml::Str(_) => 1,
        Yaml::List(xs) => 1 + list_size(xs@),
        Yaml::Dict(ps) => 1 + pairs_size(ps@),
        Yaml::Tagged(_, b) => 1 + yaml_size(*b),
    }
}

#[via_fn]
proof fn yaml_size_dec(y: Yaml) {
    match y {
        Yaml::List(xs) => {
            assert(decreases_to!(y => xs));
            assert(decreases_to!(xs => xs@));
        },
        Yaml::Dict(ps) => {
            assert(decreases_to!(y => ps));
            assert(decreases_to!(ps => ps@));
        },
        _ => {},
    }
}

/// Total size of a sequence of values.
pub open spec fn list_size(s: Seq<Yaml>) -> nat
    decreases s,
        via list_size_dec
{
    if s.len() == 0 {
        0
    } else {
        yaml_size(s[0]) + list_size(s.skip(1))
    }
}

#[via_fn]
proof fn list_size_dec(s: Seq<Yaml>) {
    if s.len() != 0 {
        axiom_seq_index_decreases(s, 0);
        assert(s.skip(1) == s.subrange(1, s.len() as int));
        axiom_seq_subrange_decreases(s, 1, s.len() as int);
    }
}

/// Total size of a sequence of pairs of values.
pub open spec fn pairs_size(s: Seq<(Yaml, Yaml)>) -> nat
    decreases s,
        via pairs_size_dec
{
    if s.len() == 0 {
        0
    } else {
        yaml_size(s[0].0) + yaml_size(s[0].1) + pairs_size(s.skip(1))
    }
}

#[via_fn]
proof fn pairs_size_dec(s: Seq<(Yaml, Yaml)>) {
    if s.len() != 0 {
        axiom_seq_index_decreases(s, 0);
        assert(decreases_to!(s[0] => s[0].0));
        assert(decreases_to!(s[0] => s[0].1));
        assert(s.skip(1) == s.subrange(1, s.len() as int));
        axiom_seq_subrange_decreases(s, 1, s.len() as int);
    }
}

/// A value's size is positive.
pub proof fn lemma_yaml_size_pos(y: Yaml)
    ensures
        yaml_size(y) >= 1,
{
}

/// An element's size is bounded by its sequence's size.
pub proof fn lemma_list_size_elem(s: Seq<Yaml>, i: int)
    requires
        0 <= i < s.len(),
    ensures
        yaml_size(s[i]) <= list_size(s),
    decreases s.len(),
{
    if i == 0 {
    } else {
        lemma_list_size_elem(s.skip(1), i - 1);
        assert(s.skip(1)[i - 1] == s[i]);
    }
}

/// A suffix weighs no more than the whole sequence.
pub proof fn lemma_list_size_skip(s: Seq<Yaml>, k: int)
    requires
        0 <= k <= s.len(),
    ensures
        list_size(s.skip(k)) <= list_size(s),
    decreases k,
{
    if k > 0 {
        lemma_list_size_skip(s, k - 1);
        assert(s.skip(k - 1).len() > 0);
        assert(s.skip(k - 1).skip(1) =~= s.skip(k));
        assert(list_size(s.skip(k - 1)) == yaml_size(s.skip(k - 1)[0]) + list_size(s.skip(k)));
    } else {
        assert(s.skip(0) =~= s);
    }
}

/// A pair's components are bounded by the pair sequence's size.
pub proof fn lemma_pairs_size_elem(s: Seq<(Yaml, Yaml)>, i: int)
    requires
        0 <= i < s.len(),
    ensures
        yaml_size(s[i].0) <= pairs_size(s),
        yaml_size(s[i].1) <= pairs_size(s),
    decreases s.len(),
{
    if i == 0 {
        lemma_yaml_size_pos(s[0].0);
        lemma_yaml_size_pos(s[0].1);
    } else {
        lemma_pairs_size_elem(s.skip(1), i - 1);
        assert(s.skip(1)[i - 1] == s[i]);
        lemma_yaml_size_pos(s[0].0);
        lemma_yaml_size_pos(s[0].1);
    }
}

/// A suffix of pairs weighs no more than the whole sequence.
pub proof fn lemma_pairs_size_skip(s: Seq<(Yaml, Yaml)>, k: int)
    requires
        0 <= k <= s.len(),
    ensures
        pairs_size(s.skip(k)) <= pairs_size(s),
    decreases k,
{
    if k > 0 {
        lemma_pairs_size_skip(s, k - 1);
        assert(s.skip(k - 1).len() > 0);
        assert(s.skip(k - 1).skip(1) =~= s.skip(k));
        assert(pairs_size(s.skip(k - 1)) == yaml_size(s.skip(k - 1)[0].0) + yaml_size(
            s.skip(k - 1)[0].1,
        ) + pairs_size(s.skip(k)));
    } else {
        assert(s.skip(0) =~= s);
    }
}

/// The bounded textual rendering of a value, used in diagnostics.
pub open spec fn vts(y: Yaml) -> Seq<char>
    decreases yaml_size(y), 0int, 0int,
{
    match y {
        Yaml::Null => "NULL"@,
        Yaml::Bool(b) => if b {
            "true"@
        } else {
            "false"@
        },
        Yaml::Num(s) => s@,
        Yaml::Str(s) => seq!['"'] + s@ + seq!['"'],
        Yaml::List(xs) => seq!['['] + vts_list(xs@) + seq![']'],
        Yaml::Dict(ps) => seq!['{'] + vts_pairs(ps@) + seq!['}'],
        Yaml::Tagged(tag, b) => tag@ + seq![' '] + vts(*b),
    }
}

/// The renderings of a sequence's elements, each followed by a comma.
pub open spec fn vts_list(s: Seq<Yaml>) -> Seq<char>
    decreases list_size(s), 1int, s.len(),
        via vts_list_dec
{
    if s.len() == 0 {
        Seq::empty()
    } else {
        vts(s[0]) + seq![','] + vts_list(s.skip(1))
    }
}

#[via_fn]
proof fn vts_list_dec(s: Seq<Yaml>) {
    if s.len() != 0 {
        lemma_list_size_elem(s, 0);
        lemma_yaml_size_pos(s[0]);
        lemma_list_size_skip(s, 1);
    }
}

/// The renderings of a mapping's pairs, `key:value,` each.
pub open spec fn vts_pairs(s: Seq<(Yaml, Yaml)>) -> Seq<char>
    decreases pairs_size(s), 1int, s.len(),
        via vts_pairs_dec
{
    if s.len() == 0 {
        Seq::empty()
    } else {
        vts(s[0].0) + seq![':'] + vts(s[0].1) + seq![','] + vts_pairs(s.skip(1))
    }
}

#[via_fn]
proof fn vts_pairs_dec(s: Seq<(Yaml, Yaml)>) {
    if s.len() != 0 {
        lemma_pairs_size_elem(s, 0);
        lemma_yaml_size_pos(s[0].0);
        lemma_yaml_size_pos(s[0].1);
        lemma_pairs_size_skip(s, 1);
    }
}

/// Render a value as bounded diagnostic text.
pub fn value_tostring(y: &Yaml) -> (r: Vec<char>)
    ensures
        r@ == vts(*y),
    decreases yaml_size(*y), 0int, 0int,
{
    proof {
        lemma_yaml_size_pos(*y);
    }
    match y {
        Yaml::Null => crate::text::chars_of_str("NULL"),
        Yaml::Bool(b) => {
            if *b {
                crate::text::chars_of_str("true")
            } else {
                crate::text::chars_of_str("false")
            }
        },
        Yaml::Num(s) => crate::node::clone_chars(s),
        Yaml::Str(s) => {
            let mut out: Vec<char> = Vec::new();
            out.push('"');
            crate::interp::append_chars(&mut out, s);
            out.push('"');
            proof {
                assert(out@ =~= vts(*y));
            }
            out
        },
        Yaml::List(xs) => {
            let mut out: Vec<char> = Vec::new();
            out.push('[');
            proof {
                assert(xs@.skip(0) =~= xs@);
            }
            vts_list_into(xs, 0, &mut out);
            out.push(']');
            proof {
                assert(xs@.skip(0) =~= xs@);
                assert(out@ =~= vts(*y));
            }
            out
        },
        Yaml::Dict(ps) => {
            let mut out: Vec<char> = Vec::new();
            out.push('{');
            proof {
                assert(ps@.skip(0) =~= ps@);
            }
            vts_pairs_into(ps, 0, &mut out);
            out.push('}');
            proof {
                assert(ps@.skip(0) =~= ps@);
                assert(out@ =~= vts(*y));
            }
            out
        },
        Yaml::Tagged(tag, b) => {
            let mut out: Vec<char> = Vec::new();
            crate::interp::append_chars(&mut out, tag);
            out.push(' ');
            let inner = value_tostring(b);
            crate::interp::append_chars(&mut out, &inner);
            proof {
                assert(out@ =~= vts(*y));
            }
            out
        },
    }
}

/// Append the renderings of `xs[from..]` to `out`.
fn vts_list_into(xs: &Vec<Yaml>, from: usize, out: &mut Vec<char>)
    requires
        from <= xs@.len(),
    ensures
        final(out)@ == old(out)@ + vts_list(xs@.skip(from as int)),
    decreases list_size(xs@.skip(from as int)), 1int, 0int,
{
    if from >= xs.len() {
        proof {
            assert(xs@.skip(from as int) =~= Seq::<Yaml>::empty());
            assert(final(out)@ =~= old(out)@ + vts_list(xs@.skip(from as int)));
        }
        return;
    }
    proof {
        assert(xs@.skip(from as int)[0] == xs@[from as int]);
        assert(xs@.skip(from as int).skip(1) =~= xs@.skip(from + 1));
        lemma_list_size_elem(xs@.skip(from as int), 0);
        lemma_yaml_size_pos(xs@[from as int]);
        lemma_list_size_skip(xs@.skip(from as int), 1);
    }
    let piece = value_tostring(&xs[from]);
    crate::interp::append_chars(out, &piece);
    out.push(',');
    vts_list_into(xs, from + 1, out);
    proof {
        assert(final(out)@ =~= old(out)@ + vts_list(xs@.skip(from as int)));
    }
}

/// Append the renderings of `ps[from..]` to `out`.
fn vts_pairs_into(ps: &Vec<(Yaml, Yaml)>, from: usize, out: &mut Vec<char>)
    requires
        from <= ps@.len(),
    ensures
        final(out)@ == old(out)@ + vts_pairs(ps@.skip(from as int)),
    decreases pairs_size(ps@.skip(from as int)), 1int, 0int,
{
    if from >= ps.len() {
        proof {
            assert(ps@.skip(from as int) =~= Seq::<(Yaml, Yaml)>::empty());
            assert(final(out)@ =~= old(out)@ + vts_pairs(ps@.skip(from as int)));
        }
        return;
    }
    proof {
        assert(ps@.skip(from as int)[0] == ps@[from as int]);
        assert(ps@.skip(from as int).skip(1) =~= ps@.skip(from + 1));
        lemma_pairs_size_elem(ps@.skip(from as int), 0);
        lemma_yaml_size_pos(ps@[from as int].0);
        lemma_yaml_size_pos(ps@[from as int].1);
        lemma_pairs_size_skip(ps@.skip(from as int), 1);
    }
    let piece = value_tostring(&ps[from].0);
    crate::interp::append_chars(out, &piece);
    out.push(':');
    let piece2 = value_tostring(&ps[from].1);
    crate::interp::append_chars(out, &piece2);
    out.push(',');
    vts_pairs_into(ps, from + 1, out);
    proof {
        assert(final(out)@ =~= old(out)@ + vts_pairs(ps@.skip(from as int)));
    }
}

} // verus!
