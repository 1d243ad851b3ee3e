//! The canonical renderer: a deterministic, read-only textual form of a
//! tree. Rendering is one-way; no parser reads the form back.
use vstd::prelude::*;

use crate::funcs::{Input, InputV};
use crate::node::{Node, NodeV};

verus! {

/// The canonical rendering of a tree: `x`, `y`, `0`, the stored text of a
/// constant, and `mnemonic(child)` or `mnemonic(left,right)` for
/// applications.
pub open spec fn render_of(n: NodeV) -> Seq<char>
    decreases n,
{
    match n {
        NodeV::Input(inp) => match inp {
            InputV::XPos => "x"@,
            InputV::YPos => "y"@,
            InputV::Zero => "0"@,
            InputV::Const { text, .. } => text,
        },
        NodeV::UniVarFunc { child, func } => func.text() + "("@ + render_of(*child) + ")"@,
        NodeV::BiVarFunc { child_a, child_b, func } => func.text() + "("@ + render_of(*child_a)
            + ","@ + render_of(*child_b) + ")"@,
    }
}

impl Node {
    /// Renders this tree in its canonical form.
    pub fn display(&self) -> (r: String)
        ensures
            r@ == render_of(self@),
        decreases *self,
    {
        match self {
            Node::Input(inp) => match inp {
                Input::XPos => String::from_str("x"),
                Input::YPos => String::from_str("y"),
                Input::Zero => String::from_str("0"),
                Input::Const { text, .. } => String::from_str(text.as_str()),
            },
            Node::UniVarFunc { child, func } => {
                let mut s = func.display();
                s.append("(");
                let c = child.display();
                s.append(c.as_str());
                s.append(")");
                proof {
                    assert(s@ =~= render_of(self@));
                }
                s
            },
            Node::BiVarFunc { child_a, child_b, func } => {
                let mut s = func.display();
                s.append("(");
                let ca = child_a.display();
                s.append(ca.as_str());
                s.append(",");
                let cb = child_b.display();
                s.append(cb.as_str());
                s.append(")");
                proof {
                    assert(s@ =~= render_of(self@));
                }
                s
            },
        }
    }
}

/// The compact outline of a tree: every leaf as `x`, a unary application
/// as `u(...)` and a binary one as `b(...,...)`, keeping only the shape.
pub open spec fn outline_of(n: NodeV) -> Seq<char>
    decreases n,
{
    match n {
        NodeV::Input(_) => "x"@,
        NodeV::UniVarFunc { child, .. } => "u("@ + outline_of(*child) + ")"@,
        NodeV::BiVarFunc { child_a, child_b, .. } => "b("@ + outline_of(*child_a) + ","@
            + outline_of(*child_b) + ")"@,
    }
}

impl Node {
    /// Renders the compact outline of this tree.
    pub fn outline(&self) -> (r: String)
        ensures
            r@ == outline_of(self@),
        decreases *self,
    {
        match self {
            Node::Input(_) => String::from_str("x"),
            Node::UniVarFunc { child, .. } => {
                let mut s = String::from_str("u(");
                let c = child.outline();
                s.append(c.as_str());
                s.append(")");
                proof {
                    assert(s@ =~= outline_of(self@));
                }
                s
            },
            Node::BiVarFunc { child_a, child_b, .. } => {
                let mut s = String::from_str("b(");
                let ca = child_a.outline();
                s.append(ca.as_str());
                s.append(",");
                let cb = child_b.outline();
                s.append(cb.as_str());
                s.append(")");
                proof {
                    assert(s@ =~= outline_of(self@));
                }
                s
            },
        }
    }
}

} // verus!
