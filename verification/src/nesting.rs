//! Nesting of ranges in a syntax tree: every expression covers the
//! expressions inside it.

use crate::syntax::{Define, Expr, ExprKind, Lambda, Root, Stmt, Ty};
use crate::text_range::TextRange;
use vstd::prelude::*;

verus! {

/// The range of the expression in the slot `e`; for an empty slot
/// `around`, the range of what the slot is part of.
pub open spec fn slot_range(e: Option<Box<Expr>>, around: TextRange) -> Option<TextRange> {
    match e {
        Some(e) => Some(e.range),
        None => Some(around),
    }
}

/// The range of the expression of a type annotation; `around` where
/// there is no annotation, or none that holds an expression.
pub open spec fn ty_range(ty: Option<Ty>, around: TextRange) -> Option<TextRange> {
    match ty {
        Some(ty) => slot_range(ty.expr, around),
        None => Some(around),
    }
}

/// The expression in the slot `e`, if there is one, lies in `outer`, and
/// its ranges are nested.
pub open spec fn inside(e: Option<Box<Expr>>, outer: TextRange) -> bool
    decreases e, 0nat,
{
    match e {
        None => true,
        Some(e) => outer.encloses(e.range) && nested(*e),
    }
}

/// The expression of a type annotation, if there is one, lies in `outer`,
/// and its ranges are nested.
pub open spec fn inside_ty(ty: Option<Ty>, outer: TextRange) -> bool
    decreases ty, 0nat,
{
    match ty {
        None => true,
        Some(ty) => inside(ty.expr, outer),
    }
}

/// The ranges of the expression `e` are nested: `e` covers each
/// expression directly inside it, and the ranges of those are nested.
pub open spec fn nested(e: Expr) -> bool
    decreases e, 0nat,
{
    match e.kind {
        ExprKind::Cast { expr, ty } => inside(expr, e.range) && inside_ty(ty, e.range),
        ExprKind::Ref { expr, .. } => inside(expr, e.range),
        ExprKind::Deref { pointer } => inside(pointer, e.range),
        ExprKind::Binary { lhs, rhs, .. } => inside(lhs, e.range) && inside(rhs, e.range),
        ExprKind::Unary { expr, .. } => inside(expr, e.range),
        ExprKind::Array { ty, body, .. } => inside_ty(ty, e.range) && match body {
            Some(body) => forall|k: int|
                0 <= k < body.items@.len() ==> inside(#[trigger] body.items@[k], e.range),
            None => true,
        },
        ExprKind::Block { stmts, tail_expr } => inside(tail_expr, e.range) && forall|k: int|
            0 <= k < stmts@.len() ==> nested_stmt(#[trigger] stmts@[k], e.range),
        ExprKind::If { condition, body, else_branch } => inside(condition, e.range) && inside(
            body,
            e.range,
        ) && match else_branch {
            Some(else_body) => inside(else_body, e.range),
            None => true,
        },
        ExprKind::While { condition, body } => inside(condition, e.range) && inside(body, e.range),
        ExprKind::Call { callee, args } => inside(callee, e.range) && match args {
            Some(args) => forall|k: int|
                0 <= k < args@.len() ==> inside(#[trigger] args@[k], e.range),
            None => true,
        },
        ExprKind::Index { array, index } => inside(array, e.range) && inside(index, e.range),
        ExprKind::Path { previous, .. } => inside(previous, e.range),
        ExprKind::Distinct { ty } => inside_ty(ty, e.range),
        ExprKind::Lambda(lambda) => nested_lambda(lambda, e.range),
        ExprKind::StructDecl { fields } => forall|k: int|
            0 <= k < fields@.len() ==> inside((#[trigger] fields@[k]).value, e.range),
        ExprKind::StructLiteral { ty, fields } => inside_ty(ty, e.range) && forall|k: int|
            0 <= k < fields@.len() ==> inside((#[trigger] fields@[k]).value, e.range),
        ExprKind::Comptime { body } => inside(body, e.range),
        _ => true,
    }
}

/// The types of the parameters, the return type and the body of a
/// lambda lie in `outer`, and their ranges are nested.
pub open spec fn nested_lambda(lambda: Lambda, outer: TextRange) -> bool
    decreases lambda, 0nat,
{
    &&& forall|k: int|
        0 <= k < lambda.params@.len() ==> inside_ty((#[trigger] lambda.params@[k]).ty, outer)
    &&& inside_ty(lambda.return_ty, outer)
    &&& inside(lambda.body, outer)
}

/// The expressions of a statement lie in `outer`, the range of its
/// block, and their ranges are nested.
pub open spec fn nested_stmt(stmt: Stmt, outer: TextRange) -> bool
    decreases stmt, 0nat,
{
    match stmt {
        Stmt::Define(def) => inside_ty(def.ty, outer) && inside(def.value, outer),
        Stmt::Assign { source, value, .. } => inside(source, outer) && inside(value, outer),
        Stmt::Expr { expr } => inside(expr, outer),
    }
}

/// The ranges of the expression in the slot `e` are nested.
pub open spec fn nested_slot(e: Option<Box<Expr>>) -> bool {
    match e {
        Some(e) => nested(*e),
        None => true,
    }
}

/// The ranges of the type and of the value of a definition at the root
/// of a file are nested.
pub open spec fn nested_global(def: Define) -> bool {
    nested_slot(def.value) && match def.ty {
        Some(ty) => nested_slot(ty.expr),
        None => true,
    }
}

impl Root {
    /// In every definition of the file, each expression covers the
    /// expressions inside it.
    pub open spec fn ranges_nested(&self) -> bool {
        forall|i: int| 0 <= i < self.defs@.len() ==> nested_global(#[trigger] self.defs@[i])
    }
}

/// The ranges of the type annotation `ty` are nested.
pub open spec fn nested_ty_slot(ty: Option<Ty>) -> bool {
    match ty {
        Some(ty) => nested_slot(ty.expr),
        None => true,
    }
}

/// The ranges of the expression in the slot `e` are nested, and its own
/// range lies in `outer`.
pub open spec fn covered(e: Option<Box<Expr>>, outer: TextRange) -> bool {
    nested_slot(e) && (slot_range(e, outer) matches Some(range) ==> outer.encloses(range))
}

/// What lies inside a range has nested ranges, and its own range is
/// enclosed.
pub proof fn lemma_inside(e: Option<Box<Expr>>, outer: TextRange)
    requires
        inside(e, outer),
    ensures
        covered(e, outer),
{
}

pub proof fn lemma_inside_ty(ty: Option<Ty>, outer: TextRange)
    requires
        inside_ty(ty, outer),
    ensures
        nested_ty_slot(ty),
        ty_range(ty, outer) matches Some(range) ==> outer.encloses(range),
{
    match ty {
        Some(ty) => {
            lemma_inside(ty.expr, outer);
        },
        None => {},
    }
}

} // verus!
