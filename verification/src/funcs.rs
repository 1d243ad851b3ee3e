//! The operator catalogs: the terminal kinds and the unary and binary
//! function tags that expression nodes carry, with their display mnemonics.
use vstd::prelude::*;

verus! {

/// A leaf of an expression tree: one of the two free inputs, the fixed
/// zero, or a random constant fixed at creation time.
///
/// A constant carries the IEEE-754 bit pattern of its value together with
/// the canonical rendering of that value with five digits after the
/// decimal point; the numeric work on the value itself happens outside
/// this crate, which only ever treats the pattern as opaque data.
#[derive(Clone, Debug)]
pub enum Input {
    XPos,
    YPos,
    Zero,
    Const { bits: u64, text: String },
}

/// The mathematical shape of an `Input`: the constant's rendering is a
/// sequence of characters.
pub enum InputV {
    XPos,
    YPos,
    Zero,
    Const { bits: u64, text: Seq<char> },
}

impl View for Input {
    type V = InputV;

    open spec fn view(&self) -> InputV {
        match self {
            Input::XPos => InputV::XPos,
            Input::YPos => InputV::YPos,
            Input::Zero => InputV::Zero,
            Input::Const { bits, text } => InputV::Const { bits: *bits, text: text@ },
        }
    }
}

impl Input {
    /// A deep copy with the same mathematical value.
    pub fn duplicate(&self) -> (r: Input)
        ensures
            r@ == self@,
    {
        match self {
            Input::XPos => Input::XPos,
            Input::YPos => Input::YPos,
            Input::Zero => Input::Zero,
            Input::Const { bits, text } => Input::Const {
                bits: *bits,
                text: String::from_str(text.as_str()),
            },
        }
    }
}

/// The closed set of one-argument numeric functions.
#[derive(Clone, Copy, Debug)]
pub enum UniVarFunc {
    Cos,
    Sqr,
    Abs,
    Neg,
}

/// The member of the unary catalog at a given index, in declaration order.
pub open spec fn uvf_at(i: int) -> UniVarFunc {
    if i == 0 {
        UniVarFunc::Cos
    } else if i == 1 {
        UniVarFunc::Sqr
    } else if i == 2 {
        UniVarFunc::Abs
    } else {
        UniVarFunc::Neg
    }
}

impl UniVarFunc {
    /// The fixed three-character mnemonic of this function.
    pub open spec fn text(self) -> Seq<char> {
        match self {
            UniVarFunc::Cos => "cos"@,
            UniVarFunc::Sqr => "sqr"@,
            UniVarFunc::Abs => "abs"@,
            UniVarFunc::Neg => "neg"@,
        }
    }

    /// Renders the mnemonic.
    pub fn display(&self) -> (r: String)
        ensures
            r@ == self.text(),
    {
        match self {
            UniVarFunc::Cos => String::from_str("cos"),
            UniVarFunc::Sqr => String::from_str("sqr"),
            UniVarFunc::Abs => String::from_str("abs"),
            UniVarFunc::Neg => String::from_str("neg"),
        }
    }

    /// Picks a member of the catalog from an arbitrary draw, reducing the
    /// draw modulo the catalog's size.
    pub fn from_draw(k: usize) -> (r: UniVarFunc)
        ensures
            r == uvf_at(k as int % 4),
    {
        let i = k % 4;
        if i == 0 {
            UniVarFunc::Cos
        } else if i == 1 {
            UniVarFunc::Sqr
        } else if i == 2 {
            UniVarFunc::Abs
        } else {
            UniVarFunc::Neg
        }
    }
}

/// The closed set of two-argument numeric functions.
#[derive(Clone, Copy, Debug)]
pub enum BiVarFunc {
    Sum,
    Diff,
    Prod,
    Max,
}

/// The member of the binary catalog at a given index, in declaration order.
pub open spec fn bvf_at(i: int) -> BiVarFunc {
    if i == 0 {
        BiVarFunc::Sum
    } else if i == 1 {
        BiVarFunc::Diff
    } else if i == 2 {
        BiVarFunc::Prod
    } else {
        BiVarFunc::Max
    }
}

impl BiVarFunc {
    /// The fixed three-character mnemonic of this function.
    pub open spec fn text(self) -> Seq<char> {
        match self {
            BiVarFunc::Sum => "sum"@,
            BiVarFunc::Diff => "dif"@,
            BiVarFunc::Prod => "prd"@,
            BiVarFunc::Max => "max"@,
        }
    }

    /// Renders the mnemonic.
    pub fn display(&self) -> (r: String)
        ensures
            r@ == self.text(),
    {
        match self {
            BiVarFunc::Sum => String::from_str("sum"),
            BiVarFunc::Diff => String::from_str("dif"),
            BiVarFunc::Prod => String::from_str("prd"),
            BiVarFunc::Max => String::from_str("max"),
        }
    }

    /// Picks a member of the catalog from an arbitrary draw, reducing the
    /// draw modulo the catalog's size.
    pub fn from_draw(k: usize) -> (r: BiVarFunc)
        ensures
            r == bvf_at(k as int % 4),
    {
        let i = k % 4;
        if i == 0 {
            BiVarFunc::Sum
        } else if i == 1 {
            BiVarFunc::Diff
        } else if i == 2 {
            BiVarFunc::Prod
        } else {
            BiVarFunc::Max
        }
    }
}

} // verus!
