//! The stochastic operators: random generation, mutation and crossover.
//! Each produces a freshly owned tree; the inputs of mutation and
//! crossover are only read, never changed.
use vstd::prelude::*;

use crate::constant::{const_bits_of, const_text_of, spec_const_bits, spec_const_text, DRAW_BOUND};
use crate::funcs::{BiVarFunc, Input, InputV, UniVarFunc};
use crate::node::{
    depth_of, lemma_depth_lt_size, lemma_size_pos, replace_at, size_of, sub_at, Node, NodeV, Tree,
};
use crate::rng::{random_u64, random_u8, random_usize};

verus! {

/// A well-drawn terminal: a constant leaf carries the bit pattern and
/// the five-decimal text of one and the same draw.
pub open spec fn wf_input(i: InputV) -> bool {
    match i {
        InputV::Const { bits, text } => exists|m: nat|
            m < DRAW_BOUND && bits == spec_const_bits(m) && text == spec_const_text(m),
        _ => true,
    }
}

/// Every constant leaf of the tree is well drawn.
pub open spec fn wf_consts(n: NodeV) -> bool
    decreases n,
{
    match n {
        NodeV::Input(i) => wf_input(i),
        NodeV::UniVarFunc { child, .. } => wf_consts(*child),
        NodeV::BiVarFunc { child_a, child_b, .. } => wf_consts(*child_a) && wf_consts(*child_b),
    }
}

/// Draws a terminal uniformly among the four kinds; when the constant
/// kind is drawn, its value receives a fresh 53-bit draw.
fn sample_input() -> (inp: Input)
    ensures
        wf_input(inp@),
{
    let kind: usize = random_usize() % 4;
    if kind == 0 {
        Input::XPos
    } else if kind == 1 {
        Input::YPos
    } else if kind == 2 {
        Input::Zero
    } else {
        let r: u64 = random_u64();
        let m: u64 = r / 2048;
        proof {
            assert(r / 2048 < 0x20000000000000) by (nonlinear_arith)
                requires
                    r <= 0xFFFFFFFFFFFFFFFFu64,
            ;
        }
        let bits = const_bits_of(m);
        let text = const_text_of(m);
        let inp = Input::Const { bits, text };
        proof {
            assert(m < DRAW_BOUND && bits == spec_const_bits(m as nat) && text@
                == spec_const_text(m as nat));
        }
        inp
    }
}

/// Generates a random tree whose depth is at most the given bound: at
/// depth zero a terminal is drawn; above it, one of the three shapes is
/// drawn uniformly, and a terminal may still end a branch early, so the
/// bound is a maximum, not an exact depth.
pub fn random_tree(depth: usize) -> (t: Tree)
    ensures
        depth_of(t@) <= depth,
        wf_consts(t@),
    decreases depth,
{
    let choice: usize = random_usize() % 3;
    let root: Node = if choice == 0 || depth == 0 {
        Node::Input(sample_input())
    } else if choice == 1 {
        let child = random_tree(depth - 1);
        Node::UniVarFunc {
            child: Box::new(child.root),
            func: UniVarFunc::from_draw(random_usize()),
        }
    } else {
        let child_a = random_tree(depth - 1);
        let child_b = random_tree(depth - 1);
        Node::BiVarFunc {
            child_a: Box::new(child_a.root),
            child_b: Box::new(child_b.root),
            func: BiVarFunc::from_draw(random_usize()),
        }
    };
    Tree::new(root)
}

/// Mutation: a structural copy of the input with the subtree at one
/// randomly chosen pre-order position — any node, not only a leaf —
/// replaced by a freshly generated random subtree whose depth bound is
/// the whole input tree's depth. The input is only read.
pub fn mutate(tree: &Tree) -> (t: Tree)
    ensures
        exists|i: int, s: NodeV|
            0 <= i < size_of(tree@) && depth_of(s) <= depth_of(tree@) && wf_consts(s) && t@
                == replace_at(tree@, i, s),
{
    let new_tree = tree.clone();
    let new_tree_children = new_tree.root.get_all_children();
    let len: usize = new_tree_children.len();
    proof {
        lemma_size_pos(tree@);
        lemma_depth_lt_size(tree@);
    }
    let idx: usize = random_usize() % len;
    let new_subtree = random_tree(tree.root.depth());
    let root = new_tree.root.with_replaced(idx, new_subtree.root);
    let t = Tree::new(root);
    proof {
        assert((idx as int) < size_of(tree@) && depth_of(new_subtree@) <= depth_of(tree@)
            && wf_consts(new_subtree@) && t@ == replace_at(tree@, idx as int, new_subtree@));
    }
    t
}

/// Crossover: a structural copy of the recipient with the subtree at one
/// randomly chosen position replaced by a copy of one randomly chosen
/// subtree of the donor. Both parents are only read; the result is the
/// recipient's skeleton carrying one piece of donor material.
pub fn breed(tree_a: &Tree, tree_b: &Tree) -> (t: Tree)
    ensures
        exists|i: int, j: int|
            0 <= i < size_of(tree_a@) && 0 <= j < size_of(tree_b@) && t@ == replace_at(
                tree_b@,
                j,
                sub_at(tree_a@, i),
            ),
{
    let new_tree = tree_b.clone();
    let new_tree_children = new_tree.root.get_all_children();
    let donor_tree = tree_a.clone();
    let donor_subs = donor_tree.root.get_all_children();
    proof {
        lemma_size_pos(tree_a@);
        lemma_size_pos(tree_b@);
    }
    let i: usize = random_usize() % donor_subs.len();
    let new_subtree = donor_subs[i].duplicate();
    let len: usize = new_tree_children.len();
    let j: usize = random_usize() % len;
    let root = new_tree.root.with_replaced(j, new_subtree);
    let t = Tree::new(root);
    proof {
        assert((i as int) < size_of(tree_a@) && (j as int) < size_of(tree_b@) && t@ == replace_at(
            tree_b@,
            j as int,
            sub_at(tree_a@, i as int),
        ));
    }
    t
}

/// The shapes of a sequence of input leaves, element by element.
pub open spec fn views_of(s: Seq<Input>) -> Seq<InputV> {
    s.map_values(|i: Input| i@)
}

/// Every leaf of the tree is one of the given inputs, and every operator
/// one of the given function tags.
pub open spec fn drawn_from(
    n: NodeV,
    inputs: Seq<InputV>,
    uvs: Seq<UniVarFunc>,
    bvs: Seq<BiVarFunc>,
) -> bool
    decreases n,
{
    match n {
        NodeV::Input(i) => inputs.contains(i),
        NodeV::UniVarFunc { child, func } => uvs.contains(func) && drawn_from(
            *child,
            inputs,
            uvs,
            bvs,
        ),
        NodeV::BiVarFunc { child_a, child_b, func } => bvs.contains(func) && drawn_from(
            *child_a,
            inputs,
            uvs,
            bvs,
        ) && drawn_from(*child_b, inputs, uvs, bvs),
    }
}

impl Node {
    /// Grows a random tree to exactly the given depth from caller-given
    /// catalogs: starting from a drawn leaf, it wraps the root under a
    /// drawn unary operator, or under a drawn binary operator beside a
    /// fresh drawn leaf, until the depth is reached.
    pub fn new_rand(
        inputset: Vec<Input>,
        uvfuncset: Vec<UniVarFunc>,
        bvfuncset: Vec<BiVarFunc>,
        maxdepth: usize,
    ) -> (r: Node)
        requires
            inputset.len() > 0,
            maxdepth > 0 ==> uvfuncset.len() > 0 && bvfuncset.len() > 0,
        ensures
            depth_of(r@) == maxdepth,
            drawn_from(r@, views_of(inputset@), uvfuncset@, bvfuncset@),
    {
        let ghost inpv = views_of(inputset@);
        let idx: usize = random_usize() % inputset.len();
        let mut root: Node = Node::Input(inputset[idx].duplicate());
        proof {
            assert(inpv[idx as int] == inputset@[idx as int]@);
        }
        let mut d: usize = root.depth();
        while d < maxdepth
            invariant
                d == depth_of(root@),
                depth_of(root@) <= maxdepth,
                inputset.len() > 0,
                maxdepth > 0 ==> uvfuncset.len() > 0 && bvfuncset.len() > 0,
                drawn_from(root@, inpv, uvfuncset@, bvfuncset@),
                inpv == views_of(inputset@),
            decreases maxdepth - depth_of(root@),
        {
            let ghost prev = root@;
            if random_u8() % 2 == 0 {
                let fidx: usize = random_usize() % uvfuncset.len();
                let func = uvfuncset[fidx];
                root = Node::from_uvf(func, root);
                proof {
                    assert(root@ == (NodeV::UniVarFunc { child: Box::new(prev), func }));
                    assert(depth_of(root@) == depth_of(prev) + 1);
                    assert(uvfuncset@.contains(func));
                    assert(drawn_from(root@, inpv, uvfuncset@, bvfuncset@));
                }
            } else {
                let fidx: usize = random_usize() % bvfuncset.len();
                let func = bvfuncset[fidx];
                let lidx: usize = random_usize() % inputset.len();
                let leaf = Node::Input(inputset[lidx].duplicate());
                let ghost leafv = leaf@;
                root = Node::from_bvf(func, root, leaf);
                proof {
                    assert(root@ == (NodeV::BiVarFunc {
                        child_a: Box::new(prev),
                        child_b: Box::new(leafv),
                        func,
                    }));
                    assert(depth_of(leafv) == 0);
                    assert(depth_of(root@) == depth_of(prev) + 1);
                    assert(bvfuncset@.contains(func));
                    assert(inpv[lidx as int] == inputset@[lidx as int]@);
                    assert(drawn_from(leafv, inpv, uvfuncset@, bvfuncset@));
                    assert(drawn_from(root@, inpv, uvfuncset@, bvfuncset@));
                }
            }
            d = d + 1;
        }
        root
    }
}

} // verus!
