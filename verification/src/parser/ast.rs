//! The syntax tree of an arithmetic line.

use vstd::prelude::*;
use crate::analysis::tokens::Token;

verus! {

/// A node of the syntax tree. A binary node owns its two operands.
#[derive(Debug, PartialEq, Eq)]
pub enum Syntax {
    /// A leaf: one number token.
    NumberExpression { value: Token },
    /// An operator applied to two operands.
    BinaryExpression { left: Box<Syntax>, op: Token, right: Box<Syntax> },
}

impl Syntax {
    /// Every operator in the tree is `+` or `-`, and every leaf holds a
    /// number token.
    pub open spec fn well_formed(self) -> bool
        decreases self,
    {
        match self {
            Syntax::NumberExpression { value } => value is Number,
            Syntax::BinaryExpression { left, op, right } => {
                &&& op is Plus || op is Minus
                &&& left.well_formed()
                &&& right.well_formed()
            },
        }
    }

    /// The operands hang to the left: the right operand of every
    /// operator is a leaf.
    pub open spec fn left_leaning(self) -> bool
        decreases self,
    {
        match self {
            Syntax::NumberExpression { .. } => true,
            Syntax::BinaryExpression { left, op, right } => {
                &&& *right is NumberExpression
                &&& left.left_leaning()
            },
        }
    }
}

} // verus!
