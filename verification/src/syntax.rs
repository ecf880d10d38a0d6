//! The syntax tree of one source file, as lowering reads it.
//!
//! A tree holds what the parser found: a piece that the source lacks is
//! `None`, and each node knows the range of text that it covers.

use crate::ops::{BinaryOp, UnaryOp};
use crate::text_range::TextRange;
use vstd::prelude::*;

verus! {

/// An identifier token.
#[derive(Clone, Debug)]
pub struct Ident {
    pub text: String,
    pub range: TextRange,
}

/// A floating-point literal's value: the bits of the IEEE 754 double that
/// the literal denotes, and that number written in its shortest decimal
/// form.
#[derive(Clone, Debug, PartialEq, Eq)]
pub struct FloatValue {
    pub bits: u64,
    pub shown: String,
}

/// A type annotation: the expression that denotes the type.
#[derive(Debug)]
pub struct Ty {
    pub expr: Option<Box<Expr>>,
}

/// One piece of a string or character literal.
#[derive(Clone, Debug)]
pub enum StringComponent {
    /// A backslash and the character `escaped` that follows it.
    Escape { escaped: char, range: TextRange },
    /// Text without a backslash.
    Contents { text: String },
}

/// A string literal between its quotes.
#[derive(Clone, Debug)]
pub struct StringLiteral {
    pub components: Vec<StringComponent>,
    pub range: TextRange,
}

/// A parameter of a lambda.
#[derive(Debug)]
pub struct Param {
    pub name: Option<Ident>,
    pub ty: Option<Ty>,
    pub range: TextRange,
}

/// A lambda: `(params) -> return_ty { body }` or `(params) -> return_ty extern`.
#[derive(Debug)]
pub struct Lambda {
    pub params: Vec<Param>,
    pub params_range: TextRange,
    pub return_ty: Option<Ty>,
    /// The range of the word `extern`, where the lambda has it.
    pub extern_range: Option<TextRange>,
    pub body: Option<Box<Expr>>,
}

/// The braces of an array literal and the items between them.
#[derive(Debug)]
pub struct ArrayBody {
    pub items: Vec<Option<Box<Expr>>>,
    pub range: TextRange,
}

/// A field of a struct declaration, or of a struct literal.
#[derive(Debug)]
pub struct Field {
    pub name: Option<Ident>,
    /// The field's type in a declaration, its value in a literal.
    pub value: Option<Box<Expr>>,
}

/// A definition `name : ty : value` (a binding) or `name : ty = value`
/// (a variable), at the root of a file or in a block.
#[derive(Debug)]
pub struct Define {
    pub mutable: bool,
    pub name: Option<Ident>,
    pub ty: Option<Ty>,
    pub value: Option<Box<Expr>>,
    pub range: TextRange,
}

/// A statement of a block.
#[derive(Debug)]
pub enum Stmt {
    Define(Define),
    Assign { source: Option<Box<Expr>>, value: Option<Box<Expr>>, range: TextRange },
    Expr { expr: Option<Box<Expr>> },
}

/// An expression and the range of text that it covers.
#[derive(Debug)]
pub struct Expr {
    pub kind: ExprKind,
    pub range: TextRange,
}

#[derive(Debug)]
pub enum ExprKind {
    Cast { expr: Option<Box<Expr>>, ty: Option<Ty> },
    Ref { mutable: bool, expr: Option<Box<Expr>> },
    Deref { pointer: Option<Box<Expr>> },
    Binary { lhs: Option<Box<Expr>>, rhs: Option<Box<Expr>>, op: Option<BinaryOp> },
    Unary { expr: Option<Box<Expr>>, op: Option<UnaryOp> },
    /// `[size] ty { items }`; `size` is `Some(None)` for empty brackets.
    Array { size: Option<Option<Box<Expr>>>, ty: Option<Ty>, body: Option<ArrayBody> },
    Block { stmts: Vec<Stmt>, tail_expr: Option<Box<Expr>> },
    /// `else_branch` is `Some(None)` for an `else` without a body.
    If {
        condition: Option<Box<Expr>>,
        body: Option<Box<Expr>>,
        else_branch: Option<Option<Box<Expr>>>,
    },
    /// `while condition body`, or `loop body` where `condition` is `None`.
    While { condition: Option<Box<Expr>>, body: Option<Box<Expr>> },
    /// `args` is `None` for a call without an argument list.
    Call { callee: Option<Box<Expr>>, args: Option<Vec<Option<Box<Expr>>>> },
    Index { array: Option<Box<Expr>>, index: Option<Box<Expr>> },
    VarRef { name: Option<Ident> },
    Path { previous: Option<Box<Expr>>, field: Option<Ident> },
    /// The literal's text, with its digit separators and exponent.
    IntLiteral { text: Option<String> },
    FloatLiteral { value: FloatValue },
    BoolLiteral { value: bool },
    CharLiteral { components: Vec<StringComponent> },
    StringLiteral(StringLiteral),
    Distinct { ty: Option<Ty> },
    Lambda(Lambda),
    StructDecl { fields: Vec<Field> },
    StructLiteral { ty: Option<Ty>, fields: Vec<Field> },
    Import { file: Option<StringLiteral> },
    Comptime { body: Option<Box<Expr>> },
}

/// The definitions at the root of a file, in source order.
#[derive(Debug)]
pub struct Root {
    pub defs: Vec<Define>,
}

} // verus!
