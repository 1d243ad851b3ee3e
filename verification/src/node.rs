//! The expression tree: a terminal, or an operator applied to one or two
//! owned child trees, together with the structural spec functions that the
//! contracts of every operator are stated over.
use vstd::prelude::*;

use crate::funcs::{BiVarFunc, Input, InputV, UniVarFunc};

verus! {

/// An expression node: a leaf input, a unary application with exactly one
/// child, or a binary application with exactly two children. A node owns
/// its children exclusively, so a tree is always a strict hierarchy.
#[derive(Debug)]
pub enum Node {
    Input(Input),
    UniVarFunc { child: Box<Node>, func: UniVarFunc },
    BiVarFunc { child_a: Box<Node>, child_b: Box<Node>, func: BiVarFunc },
}

/// The mathematical shape of a `Node`.
pub enum NodeV {
    Input(InputV),
    UniVarFunc { child: Box<NodeV>, func: UniVarFunc },
    BiVarFunc { child_a: Box<NodeV>, child_b: Box<NodeV>, func: BiVarFunc },
}

impl Node {
    /// The mathematical shape of this node: the same tree with every
    /// stored string taken as its character sequence.
    pub open spec fn deep(self) -> NodeV
        decreases self,
    {
        match self {
            Node::Input(inp) => NodeV::Input(inp@),
            Node::UniVarFunc { child, func } => NodeV::UniVarFunc {
                child: Box::new(child.deep()),
                func,
            },
            Node::BiVarFunc { child_a, child_b, func } => NodeV::BiVarFunc {
                child_a: Box::new(child_a.deep()),
                child_b: Box::new(child_b.deep()),
                func,
            },
        }
    }
}

impl View for Node {
    type V = NodeV;

    open spec fn view(&self) -> NodeV {
        self.deep()
    }
}

/// A thin wrapper holding exactly one root expression node. Created by
/// the generator or as the structural copy that mutation and crossover
/// produce; its mathematical value is its root's shape.
#[derive(Debug)]
pub struct Tree {
    pub root: Node,
}

impl View for Tree {
    type V = NodeV;

    open spec fn view(&self) -> NodeV {
        self.root@
    }
}

impl Clone for Tree {
    /// Cloning a tree deep-copies the whole expression.
    fn clone(&self) -> (r: Tree)
        ensures
            r@ == self@,
    {
        Tree { root: self.root.duplicate() }
    }
}

impl Tree {
    /// Wraps a root node as a tree.
    pub fn new(root: Node) -> (t: Tree)
        ensures
            t@ == root@,
    {
        Tree { root }
    }

    /// Depth of the whole tree.
    pub fn depth(&self) -> (d: usize)
        requires
            depth_of(self@) <= usize::MAX,
        ensures
            d == depth_of(self@),
    {
        self.root.depth()
    }

    /// Renders the whole tree in its canonical form.
    pub fn show(&self) -> (r: String)
        ensures
            r@ == crate::render::render_of(self@),
    {
        self.root.display()
    }
}

/// Depth of a tree: a leaf has depth zero, an application one more than
/// the deepest of its children.
pub open spec fn depth_of(n: NodeV) -> nat
    decreases n,
{
    match n {
        NodeV::Input(_) => 0,
        NodeV::UniVarFunc { child, .. } => depth_of(*child) + 1,
        NodeV::BiVarFunc { child_a, child_b, .. } => 1 + if depth_of(*child_a) >= depth_of(
            *child_b,
        ) {
            depth_of(*child_a)
        } else {
            depth_of(*child_b)
        },
    }
}

/// All subtrees of a tree in pre-order, left to right, the tree itself
/// first. Every node of the tree appears exactly once, as the root of
/// its own subtree.
pub open spec fn subs_of(n: NodeV) -> Seq<NodeV>
    decreases n,
{
    match n {
        NodeV::Input(_) => seq![n],
        NodeV::UniVarFunc { child, .. } => seq![n] + subs_of(*child),
        NodeV::BiVarFunc { child_a, child_b, .. } => seq![n] + subs_of(*child_a) + subs_of(
            *child_b,
        ),
    }
}

/// Number of nodes in a tree.
pub open spec fn size_of(n: NodeV) -> nat {
    subs_of(n).len()
}

/// The subtree rooted at pre-order position `i`.
pub open spec fn sub_at(n: NodeV, i: int) -> NodeV {
    subs_of(n)[i]
}

/// The tree `n` with the subtree at pre-order position `i` replaced by
/// `s`; positions at or beyond `size_of(n)` leave the tree unchanged
/// except that position `0` always yields `s` itself.
pub open spec fn replace_at(n: NodeV, i: int, s: NodeV) -> NodeV
    decreases n,
{
    if i <= 0 {
        s
    } else {
        match n {
            NodeV::Input(_) => n,
            NodeV::UniVarFunc { child, func } => NodeV::UniVarFunc {
                child: Box::new(replace_at(*child, i - 1, s)),
                func,
            },
            NodeV::BiVarFunc { child_a, child_b, func } => {
                if i - 1 < size_of(*child_a) {
                    NodeV::BiVarFunc {
                        child_a: Box::new(replace_at(*child_a, i - 1, s)),
                        child_b,
                        func,
                    }
                } else {
                    NodeV::BiVarFunc {
                        child_a,
                        child_b: Box::new(replace_at(*child_b, i - 1 - size_of(*child_a), s)),
                        func,
                    }
                }
            },
        }
    }
}

/// Every tree has at least one node: itself.
pub proof fn lemma_size_pos(n: NodeV)
    ensures
        size_of(n) >= 1,
{
    match n {
        NodeV::Input(_) => {},
        NodeV::UniVarFunc { .. } => {},
        NodeV::BiVarFunc { .. } => {},
    }
}

/// A tree's depth is strictly below its node count.
pub proof fn lemma_depth_lt_size(n: NodeV)
    ensures
        depth_of(n) < size_of(n),
    decreases n,
{
    match n {
        NodeV::Input(_) => {},
        NodeV::UniVarFunc { child, .. } => {
            lemma_depth_lt_size(*child);
        },
        NodeV::BiVarFunc { child_a, child_b, .. } => {
            lemma_depth_lt_size(*child_a);
            lemma_depth_lt_size(*child_b);
        },
    }
}

impl Clone for Node {
    /// Cloning a node deep-copies the entire subtree.
    fn clone(&self) -> (r: Node)
        ensures
            r@ == self@,
    {
        self.duplicate()
    }
}

/// The direct children of a node, left to right: none for a leaf, one
/// for a unary application, two for a binary application.
pub open spec fn children_of(n: NodeV) -> Seq<NodeV> {
    match n {
        NodeV::Input(_) => Seq::empty(),
        NodeV::UniVarFunc { child, .. } => seq![*child],
        NodeV::BiVarFunc { child_a, child_b, .. } => seq![*child_a, *child_b],
    }
}

/// The node `n` with its direct children replaced, in order, by the first
/// elements of `cs`; the operator tag is kept.
pub open spec fn with_children(n: NodeV, cs: Seq<NodeV>) -> NodeV {
    match n {
        NodeV::Input(_) => n,
        NodeV::UniVarFunc { func, .. } => NodeV::UniVarFunc { child: Box::new(cs[0]), func },
        NodeV::BiVarFunc { func, .. } => NodeV::BiVarFunc {
            child_a: Box::new(cs[0]),
            child_b: Box::new(cs[1]),
            func,
        },
    }
}

impl Node {
    /// A deep copy: a freshly owned tree with the same mathematical shape.
    pub fn duplicate(&self) -> (r: Node)
        ensures
            r@ == self@,
        decreases *self,
    {
        match self {
            Node::Input(inp) => Node::Input(inp.duplicate()),
            Node::UniVarFunc { child, func } => Node::UniVarFunc {
                child: Box::new(child.duplicate()),
                func: *func,
            },
            Node::BiVarFunc { child_a, child_b, func } => Node::BiVarFunc {
                child_a: Box::new(child_a.duplicate()),
                child_b: Box::new(child_b.duplicate()),
                func: *func,
            },
        }
    }

    /// Depth of this tree.
    pub fn depth(&self) -> (d: usize)
        requires
            depth_of(self@) <= usize::MAX,
        ensures
            d == depth_of(self@),
        decreases *self,
    {
        match self {
            Node::Input(_) => 0,
            Node::UniVarFunc { child, .. } => child.depth() + 1,
            Node::BiVarFunc { child_a, child_b, .. } => {
                let da: usize = child_a.depth();
                let db: usize = child_b.depth();
                if da >= db {
                    da + 1
                } else {
                    db + 1
                }
            },
        }
    }

    /// Wraps a child under a unary operator.
    pub fn from_uvf(func: UniVarFunc, child: Node) -> (r: Node)
        ensures
            r@ == (NodeV::UniVarFunc { child: Box::new(child@), func }),
    {
        Node::UniVarFunc { child: Box::new(child), func }
    }

    /// Wraps two children under a binary operator.
    pub fn from_bvf(func: BiVarFunc, child_a: Node, child_b: Node) -> (r: Node)
        ensures
            r@ == (NodeV::BiVarFunc {
                child_a: Box::new(child_a@),
                child_b: Box::new(child_b@),
                func,
            }),
    {
        Node::BiVarFunc { child_a: Box::new(child_a), child_b: Box::new(child_b), func }
    }

    /// A leaf holding a fixed constant, given as its bit pattern and its
    /// canonical five-decimal rendering.
    pub fn input(bits: u64, text: String) -> (r: Node)
        ensures
            r@ == (NodeV::Input(InputV::Const { bits, text: text@ })),
    {
        Node::Input(Input::Const { bits, text })
    }

    /// Deep copies of the direct children of this node.
    pub fn get_children(&self) -> (v: Vec<Node>)
        ensures
            v@.len() == children_of(self@).len(),
            forall|i: int| 0 <= i < v@.len() ==> v@[i]@ == children_of(self@)[i],
    {
        match self {
            Node::Input(_) => Vec::new(),
            Node::UniVarFunc { child, .. } => {
                let mut v: Vec<Node> = Vec::new();
                v.push(child.duplicate());
                v
            },
            Node::BiVarFunc { child_a, child_b, .. } => {
                let mut v: Vec<Node> = Vec::new();
                v.push(child_a.duplicate());
                v.push(child_b.duplicate());
                v
            },
        }
    }

    /// Replaces the direct children of this node by deep copies of the
    /// given ones. A slice of the wrong length is rejected with a
    /// descriptive error and the node is left exactly as it was.
    pub fn set_children(&mut self, children: &[Node]) -> (r: Result<(), String>)
        ensures
            match r {
                Ok(()) => children@.len() == children_of(old(self)@).len() && final(self)@
                    == with_children(old(self)@, children@.map_values(|c: Node| c@)),
                Err(_) => children@.len() != children_of(old(self)@).len() && final(self)@
                    == old(self)@,
            },
    {
        let arity: usize = match self {
            Node::Input(_) => 0,
            Node::UniVarFunc { .. } => 1,
            Node::BiVarFunc { .. } => 2,
        };
        if children.len() != arity {
            return Err(String::from_str("children length incompatible"));
        }
        match self {
            Node::Input(_) => {},
            Node::UniVarFunc { child, .. } => {
                *child = Box::new(children[0].duplicate());
            },
            Node::BiVarFunc { child_a, child_b, .. } => {
                *child_a = Box::new(children[0].duplicate());
                *child_b = Box::new(children[1].duplicate());
            },
        }
        Ok(())
    }

    /// Deep copies of every subtree of this tree, in pre-order, the whole
    /// tree first: position `i` holds the subtree rooted at the `i`-th
    /// node of the traversal.
    pub fn get_all_children(&self) -> (v: Vec<Node>)
        ensures
            v@.len() == size_of(self@),
            forall|i: int| 0 <= i < v@.len() ==> v@[i]@ == sub_at(self@, i),
        decreases *self,
    {
        let mut out: Vec<Node> = Vec::new();
        out.push(self.duplicate());
        match self {
            Node::Input(_) => {},
            Node::UniVarFunc { child, .. } => {
                let ghost base = out@;
                let mut cs = child.get_all_children();
                let ghost csv = cs@;
                out.append(&mut cs);
                proof {
                    assert(out@ == base + csv);
                    assert forall|i: int| 0 <= i < out@.len() implies out@[i]@ == sub_at(
                        self@,
                        i,
                    ) by {
                        if i == 0 {
                            assert(out@[i] == base[0]);
                        } else {
                            assert(out@[i] == csv[i - 1]);
                            assert(csv[i - 1]@ == sub_at(child@, i - 1));
                            assert(subs_of(self@)[i] == subs_of(child@)[i - 1]);
                        }
                    }
                }
            },
            Node::BiVarFunc { child_a, child_b, .. } => {
                let ghost base = out@;
                let mut ca = child_a.get_all_children();
                let ghost cav = ca@;
                out.append(&mut ca);
                let mut cb = child_b.get_all_children();
                let ghost cbv = cb@;
                out.append(&mut cb);
                proof {
                    assert(out@ == base + cav + cbv);
                    let ghost sa = size_of(child_a@) as int;
                    assert forall|i: int| 0 <= i < out@.len() implies out@[i]@ == sub_at(
                        self@,
                        i,
                    ) by {
                        if i == 0 {
                            assert(out@[i] == base[0]);
                        } else if i - 1 < sa {
                            assert(out@[i] == cav[i - 1]);
                            assert(cav[i - 1]@ == sub_at(child_a@, i - 1));
                            assert(subs_of(self@)[i] == subs_of(child_a@)[i - 1]);
                        } else {
                            assert(out@[i] == cbv[i - 1 - sa]);
                            assert(cbv[i - 1 - sa]@ == sub_at(child_b@, i - 1 - sa));
                            assert(subs_of(self@)[i] == subs_of(child_b@)[i - 1 - sa]);
                        }
                    }
                }
            },
        }
        out
    }

    /// The tree with the subtree at pre-order position `i` replaced by
    /// `s`; the rest of the tree is kept as it was.
    pub fn with_replaced(self, i: usize, s: Node) -> (r: Node)
        requires
            i < size_of(self@),
            size_of(self@) <= usize::MAX,
        ensures
            r@ == replace_at(self@, i as int, s@),
        decreases self,
    {
        if i == 0 {
            return s;
        }
        match self {
            Node::Input(inp) => Node::Input(inp),
            Node::UniVarFunc { child, func } => Node::UniVarFunc {
                child: Box::new((*child).with_replaced(i - 1, s)),
                func,
            },
            Node::BiVarFunc { child_a, child_b, func } => {
                let ca: usize = child_a.count();
                if i - 1 < ca {
                    Node::BiVarFunc {
                        child_a: Box::new((*child_a).with_replaced(i - 1, s)),
                        child_b,
                        func,
                    }
                } else {
                    Node::BiVarFunc {
                        child_a,
                        child_b: Box::new((*child_b).with_replaced(i - 1 - ca, s)),
                        func,
                    }
                }
            },
        }
    }

    /// Number of nodes in this tree.
    pub fn count(&self) -> (c: usize)
        requires
            size_of(self@) <= usize::MAX,
        ensures
            c == size_of(self@),
        decreases *self,
    {
        match self {
            Node::Input(_) => 1,
            Node::UniVarFunc { child, .. } => child.count() + 1,
            Node::BiVarFunc { child_a, child_b, .. } => {
                let ca: usize = child_a.count();
                let cb: usize = child_b.count();
                ca + cb + 1
            },
        }
    }
}

} // verus!
