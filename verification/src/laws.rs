//! Cross-cutting laws of the engine, proved once over the structural
//! spec functions that every operator's contract is stated with.
use vstd::prelude::*;

use crate::node::{children_of, lemma_size_pos, replace_at, size_of, sub_at, subs_of, NodeV};
use crate::render::render_of;

verus! {

/// The root of a tree is its own first pre-order subtree.
pub proof fn lemma_sub_at_zero(n: NodeV)
    ensures
        sub_at(n, 0) == n,
{
    match n {
        NodeV::Input(_) => {
            assert(subs_of(n)[0] == n);
        },
        NodeV::UniVarFunc { .. } => {
            assert(subs_of(n)[0] == n);
        },
        NodeV::BiVarFunc { .. } => {
            assert(subs_of(n)[0] == n);
        },
    }
}

/// Replacing the subtree at position `i` keeps every node standing
/// before that position, so the result holds at least `i` nodes ahead of
/// the inserted subtree.
proof fn lemma_replace_size_lower(n: NodeV, i: int, s: NodeV)
    requires
        0 <= i < size_of(n),
    ensures
        size_of(replace_at(n, i, s)) >= i + size_of(s),
    decreases n,
{
    if i > 0 {
        match n {
            NodeV::Input(_) => {},
            NodeV::UniVarFunc { child, func } => {
                lemma_replace_size_lower(*child, i - 1, s);
                assert(size_of(replace_at(n, i, s)) == 1 + size_of(replace_at(*child, i - 1, s)));
            },
            NodeV::BiVarFunc { child_a, child_b, func } => {
                let sa = size_of(*child_a) as int;
                if i - 1 < sa {
                    lemma_replace_size_lower(*child_a, i - 1, s);
                    assert(size_of(replace_at(n, i, s)) == 1 + size_of(
                        replace_at(*child_a, i - 1, s),
                    ) + size_of(*child_b));
                } else {
                    lemma_replace_size_lower(*child_b, i - 1 - sa, s);
                    assert(size_of(replace_at(n, i, s)) == 1 + size_of(*child_a) + size_of(
                        replace_at(*child_b, i - 1 - sa, s),
                    ));
                }
            },
        }
    }
}

/// After replacing the subtree at pre-order position `i` by `s`, the
/// subtree standing at position `i` is exactly `s`: the positions ahead
/// of the splice point are untouched, so the splice lands where it was
/// aimed.
pub proof fn lemma_replace_at_contains(n: NodeV, i: int, s: NodeV)
    requires
        0 <= i < size_of(n),
    ensures
        sub_at(replace_at(n, i, s), i) == s,
    decreases n,
{
    lemma_size_pos(s);
    if i == 0 {
        lemma_sub_at_zero(s);
    } else {
        match n {
            NodeV::Input(_) => {},
            NodeV::UniVarFunc { child, func } => {
                lemma_replace_at_contains(*child, i - 1, s);
                lemma_replace_size_lower(*child, i - 1, s);
                let c2 = replace_at(*child, i - 1, s);
                let n2 = replace_at(n, i, s);
                assert(n2 == (NodeV::UniVarFunc { child: Box::new(c2), func }));
                assert(subs_of(n2)[i] == subs_of(c2)[i - 1]);
            },
            NodeV::BiVarFunc { child_a, child_b, func } => {
                let sa = size_of(*child_a) as int;
                let n2 = replace_at(n, i, s);
                if i - 1 < sa {
                    lemma_replace_at_contains(*child_a, i - 1, s);
                    lemma_replace_size_lower(*child_a, i - 1, s);
                    let a2 = replace_at(*child_a, i - 1, s);
                    assert(n2 == (NodeV::BiVarFunc { child_a: Box::new(a2), child_b, func }));
                    assert(subs_of(n2)[i] == subs_of(a2)[i - 1]);
                } else {
                    lemma_replace_at_contains(*child_b, i - 1 - sa, s);
                    lemma_replace_size_lower(*child_b, i - 1 - sa, s);
                    let b2 = replace_at(*child_b, i - 1 - sa, s);
                    assert(n2 == (NodeV::BiVarFunc { child_a, child_b: Box::new(b2), func }));
                    assert(subs_of(n2)[i] == subs_of(b2)[i - 1 - sa]);
                }
            },
        }
    }
}

/// Crossover keeps the donor's contribution: in any tree of the shape
/// that `breed` returns — the recipient with position `j` replaced by
/// the donor's subtree at position `i` — the subtree standing at
/// position `j` is exactly that donor subtree.
pub proof fn lemma_breed_contains_donor(donor: NodeV, recipient: NodeV, i: int, j: int)
    requires
        0 <= i < size_of(donor),
        0 <= j < size_of(recipient),
    ensures
        sub_at(replace_at(recipient, j, sub_at(donor, i)), j) == sub_at(donor, i),
{
    lemma_replace_at_contains(recipient, j, sub_at(donor, i));
}

/// Rendering is deterministic: any two renderings of the same tree are
/// the same text — the rendered form is a function of the tree alone,
/// with no hidden state affecting display.
pub proof fn lemma_render_deterministic(t: NodeV, r1: Seq<char>, r2: Seq<char>)
    requires
        r1 == render_of(t),
        r2 == render_of(t),
    ensures
        r1 == r2,
{
}

/// How many children a node's shape takes: none for a leaf, one for a
/// unary application, two for a binary application.
pub open spec fn arity_of(n: NodeV) -> nat {
    match n {
        NodeV::Input(_) => 0,
        NodeV::UniVarFunc { .. } => 1,
        NodeV::BiVarFunc { .. } => 2,
    }
}

/// The arity invariant holds of every node of every tree: each node has
/// exactly as many children as its shape takes, at every position.
pub proof fn lemma_arity_invariant(t: NodeV, i: int)
    requires
        0 <= i < size_of(t),
    ensures
        children_of(sub_at(t, i)).len() == arity_of(sub_at(t, i)),
{
    match sub_at(t, i) {
        NodeV::Input(_) => {},
        NodeV::UniVarFunc { .. } => {},
        NodeV::BiVarFunc { .. } => {},
    }
}

} // verus!
