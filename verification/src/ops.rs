//! The operators of expressions.

use vstd::prelude::*;

verus! {

#[derive(Debug, Clone, Copy, PartialEq, Eq, Structural)]
pub enum BinaryOp {
    // math operations
    Add,
    Sub,
    Mul,
    Div,
    Mod,
    // comparisons
    Lt,
    Gt,
    Le,
    Ge,
    Eq,
    Ne,
    // boolean operations
    And,
    Or,
}

#[derive(Debug, Clone, Copy, PartialEq, Eq, Structural)]
pub enum UnaryOp {
    // math operations
    Pos,
    Neg,
    // boolean operations
    Not,
}

impl BinaryOp {
    /// The operator as it is written in source text.
    pub open spec fn symbol(self) -> Seq<char> {
        match self {
            BinaryOp::Add => seq!['+'],
            BinaryOp::Sub => seq!['-'],
            BinaryOp::Mul => seq!['*'],
            BinaryOp::Div => seq!['/'],
            BinaryOp::Mod => seq!['%'],
            BinaryOp::Lt => seq!['<'],
            BinaryOp::Gt => seq!['>'],
            BinaryOp::Le => seq!['<', '='],
            BinaryOp::Ge => seq!['>', '='],
            BinaryOp::Eq => seq!['=', '='],
            BinaryOp::Ne => seq!['!', '='],
            BinaryOp::And => seq!['&', '&'],
            BinaryOp::Or => seq!['|', '|'],
        }
    }
}

impl UnaryOp {
    /// The operator as it is written in source text.
    pub open spec fn symbol(self) -> Seq<char> {
        match self {
            UnaryOp::Pos => seq!['+'],
            UnaryOp::Neg => seq!['-'],
            UnaryOp::Not => seq!['!'],
        }
    }
}

} // verus!
