//! The weight of a piece of syntax: a bound on the number of nodes,
//! names and unique identifiers that lowering it can add.

use crate::interner::Interner;
use crate::syntax::{Define, Expr, ExprKind, Field, Lambda, Param, Root, Stmt, Ty};
use crate::uid::UIDGenerator;
use vstd::prelude::*;

verus! {

/// The weight of the expression slot `e`.
pub open spec fn weight_of_expr(e: Option<Box<Expr>>) -> nat
    decreases e, 0nat,
{
    match e {
        None => 1,
        Some(e) => 1 + weight_of_raw(*e),
    }
}

/// The weight of a type annotation.
pub open spec fn weight_of_ty(ty: Option<Ty>) -> nat
    decreases ty, 0nat,
{
    match ty {
        None => 1,
        Some(ty) => weight_of_expr(ty.expr),
    }
}

/// The weight of the expression `e` without its own place in the arena.
pub open spec fn weight_of_raw(e: Expr) -> nat
    decreases e, 0nat,
{
    1 + match e.kind {
        ExprKind::Cast { expr, ty } => weight_of_expr(expr) + weight_of_ty(ty),
        ExprKind::Ref { expr, .. } => weight_of_expr(expr),
        ExprKind::Deref { pointer } => weight_of_expr(pointer),
        ExprKind::Binary { lhs, rhs, .. } => weight_of_expr(lhs) + weight_of_expr(rhs),
        ExprKind::Unary { expr, .. } => weight_of_expr(expr),
        ExprKind::Array { ty, body, .. } => weight_of_ty(ty) + match body {
            Some(body) => weight_of_items(body.items, body.items@.len()),
            None => 0,
        },
        ExprKind::Block { stmts, tail_expr } => weight_of_stmts(stmts, stmts@.len())
            + weight_of_expr(tail_expr),
        ExprKind::If { condition, body, else_branch } => weight_of_expr(condition)
            + weight_of_expr(body) + match else_branch {
            Some(else_body) => weight_of_expr(else_body),
            None => 0,
        },
        ExprKind::While { condition, body } => weight_of_expr(condition) + weight_of_expr(body),
        ExprKind::Call { callee, args } => weight_of_expr(callee) + match args {
            Some(args) => weight_of_items(args, args@.len()),
            None => 0,
        },
        ExprKind::Index { array, index } => weight_of_expr(array) + weight_of_expr(index),
        ExprKind::Path { previous, .. } => weight_of_expr(previous),
        ExprKind::Distinct { ty } => weight_of_ty(ty),
        ExprKind::Lambda(lambda) => weight_of_lambda(lambda),
        ExprKind::StructDecl { fields } => weight_of_fields(fields, fields@.len()),
        ExprKind::StructLiteral { ty, fields } => weight_of_ty(ty) + weight_of_fields(
            fields,
            fields@.len(),
        ),
        ExprKind::Comptime { body } => weight_of_expr(body),
        _ => 0,
    }
}

pub open spec fn weight_of_lambda(lambda: Lambda) -> nat
    decreases lambda, 0nat,
{
    weight_of_params(lambda.params, lambda.params@.len()) + weight_of_ty(lambda.return_ty)
        + weight_of_expr(lambda.body)
}

pub open spec fn weight_of_params(params: Vec<Param>, n: nat) -> nat
    decreases params, n,
{
    if n == 0 || n > params@.len() {
        0
    } else {
        weight_of_params(params, (n - 1) as nat) + 1 + weight_of_ty(params@[n - 1].ty)
    }
}

pub open spec fn weight_of_items(items: Vec<Option<Box<Expr>>>, n: nat) -> nat
    decreases items, n,
{
    if n == 0 || n > items@.len() {
        0
    } else {
        weight_of_items(items, (n - 1) as nat) + weight_of_expr(items@[n - 1])
    }
}

pub open spec fn weight_of_fields(fields: Vec<Field>, n: nat) -> nat
    decreases fields, n,
{
    if n == 0 || n > fields@.len() {
        0
    } else {
        weight_of_fields(fields, (n - 1) as nat) + 1 + weight_of_expr(fields@[n - 1].value)
    }
}

pub open spec fn weight_of_stmt(stmt: Stmt) -> nat
    decreases stmt, 0nat,
{
    1 + match stmt {
        Stmt::Define(def) => 2 + weight_of_ty(def.ty) + weight_of_expr(def.value),
        Stmt::Assign { source, value, .. } => 1 + weight_of_expr(source) + weight_of_expr(value),
        Stmt::Expr { expr } => weight_of_expr(expr),
    }
}

pub open spec fn weight_of_stmts(stmts: Vec<Stmt>, n: nat) -> nat
    decreases stmts, n,
{
    if n == 0 || n > stmts@.len() {
        0
    } else {
        weight_of_stmts(stmts, (n - 1) as nat) + weight_of_stmt(stmts@[n - 1])
    }
}

/// The weight of a definition at the root of a file.
pub open spec fn weight_of_global(def: Define) -> nat {
    1 + weight_of_ty(def.ty) + weight_of_expr(def.value)
}

pub open spec fn weight_of_globals(defs: Vec<Define>, n: nat) -> nat
    decreases n,
{
    if n == 0 || n > defs@.len() {
        0
    } else {
        weight_of_globals(defs, (n - 1) as nat) + weight_of_global(defs@[n - 1])
    }
}

impl Root {
    /// The weight of the file: a bound on what lowering it adds to any
    /// arena, to the interner, and to the unique identifiers.
    pub open spec fn weight(&self) -> nat {
        weight_of_globals(self.defs, self.defs@.len())
    }
}

/// The weight of a prefix of a list is at most the weight of a longer
/// prefix, and at least the number of its items.
pub proof fn lemma_items_weight(items: Vec<Option<Box<Expr>>>, a: nat, b: nat)
    requires
        a <= b <= items@.len(),
    ensures
        a <= weight_of_items(items, a) <= weight_of_items(items, b),
    decreases b,
{
    if a < b {
        lemma_items_weight(items, a, (b - 1) as nat);
    } else if a > 0 {
        lemma_items_weight(items, (a - 1) as nat, (a - 1) as nat);
        assert(weight_of_expr(items@[a - 1]) >= 1);
    }
}

pub proof fn lemma_fields_weight(fields: Vec<Field>, a: nat, b: nat)
    requires
        a <= b <= fields@.len(),
    ensures
        a <= weight_of_fields(fields, a) <= weight_of_fields(fields, b),
    decreases b,
{
    if a < b {
        lemma_fields_weight(fields, a, (b - 1) as nat);
    } else if a > 0 {
        lemma_fields_weight(fields, (a - 1) as nat, (a - 1) as nat);
    }
}

pub proof fn lemma_params_weight(params: Vec<Param>, a: nat, b: nat)
    requires
        a <= b <= params@.len(),
    ensures
        a <= weight_of_params(params, a) <= weight_of_params(params, b),
    decreases b,
{
    if a < b {
        lemma_params_weight(params, a, (b - 1) as nat);
    } else if a > 0 {
        lemma_params_weight(params, (a - 1) as nat, (a - 1) as nat);
    }
}

pub proof fn lemma_stmts_weight(stmts: Vec<Stmt>, a: nat, b: nat)
    requires
        a <= b <= stmts@.len(),
    ensures
        a <= weight_of_stmts(stmts, a) <= weight_of_stmts(stmts, b),
    decreases b,
{
    if a < b {
        lemma_stmts_weight(stmts, a, (b - 1) as nat);
    } else if a > 0 {
        lemma_stmts_weight(stmts, (a - 1) as nat, (a - 1) as nat);
        assert(weight_of_stmt(stmts@[a - 1]) >= 1);
    }
}

pub proof fn lemma_globals_weight(defs: Vec<Define>, a: nat, b: nat)
    requires
        a <= b <= defs@.len(),
    ensures
        a <= weight_of_globals(defs, a) <= weight_of_globals(defs, b),
    decreases b,
{
    if a < b {
        lemma_globals_weight(defs, a, (b - 1) as nat);
    } else if a > 0 {
        lemma_globals_weight(defs, (a - 1) as nat, (a - 1) as nat);
    }
}

/// The sum of two weights, where it is not above `limit`.
fn add_weights(a: Option<u32>, b: Option<u32>, limit: u32) -> (sum: Option<u32>)
    ensures
        sum == (match (a, b) {
            (Some(a), Some(b)) => if a + b <= limit {
                Some((a + b) as u32)
            } else {
                None
            },
            _ => None,
        }),
{
    match (a, b) {
        (Some(a), Some(b)) => {
            if a <= limit && b <= limit - a {
                Some(a + b)
            } else {
                None
            }
        },
        _ => None,
    }
}

/// `weight` as the result of weighing with the limit `limit`: the
/// weight where it is not above the limit.
pub open spec fn weighed(weight: nat, limit: u32) -> Option<u32> {
    if weight <= limit {
        Some(weight as u32)
    } else {
        None
    }
}

fn weigh_expr(e: &Option<Box<Expr>>, limit: u32) -> (weight: Option<u32>)
    ensures
        weight == weighed(weight_of_expr(*e), limit),
    decreases *e, 0nat,
{
    match e {
        None => add_weights(Some(1), Some(0), limit),
        Some(e) => add_weights(Some(1), weigh_raw(e, limit), limit),
    }
}

fn weigh_ty(ty: &Option<Ty>, limit: u32) -> (weight: Option<u32>)
    ensures
        weight == weighed(weight_of_ty(*ty), limit),
    decreases *ty, 0nat,
{
    match ty {
        None => add_weights(Some(1), Some(0), limit),
        Some(ty) => weigh_expr(&ty.expr, limit),
    }
}

fn weigh_raw(e: &Expr, limit: u32) -> (weight: Option<u32>)
    ensures
        weight == weighed(weight_of_raw(*e), limit),
    decreases *e, 0nat,
{
    let inner: Option<u32> = match &e.kind {
        ExprKind::Cast { expr, ty } => add_weights(
            weigh_expr(expr, limit),
            weigh_ty(ty, limit),
            limit,
        ),
        ExprKind::Ref { expr, .. } => weigh_expr(expr, limit),
        ExprKind::Deref { pointer } => weigh_expr(pointer, limit),
        ExprKind::Binary { lhs, rhs, .. } => add_weights(
            weigh_expr(lhs, limit),
            weigh_expr(rhs, limit),
            limit,
        ),
        ExprKind::Unary { expr, .. } => weigh_expr(expr, limit),
        ExprKind::Array { ty, body, .. } => {
            let items: Option<u32> = match body {
                Some(body) => weigh_items(&body.items, limit),
                None => Some(0),
            };
            add_weights(weigh_ty(ty, limit), items, limit)
        },
        ExprKind::Block { stmts, tail_expr } => add_weights(
            weigh_stmts(stmts, limit),
            weigh_expr(tail_expr, limit),
            limit,
        ),
        ExprKind::If { condition, body, else_branch } => {
            let rest: Option<u32> = match else_branch {
                Some(else_body) => weigh_expr(else_body, limit),
                None => Some(0),
            };
            add_weights(
                add_weights(weigh_expr(condition, limit), weigh_expr(body, limit), limit),
                rest,
                limit,
            )
        },
        ExprKind::While { condition, body } => add_weights(
            weigh_expr(condition, limit),
            weigh_expr(body, limit),
            limit,
        ),
        ExprKind::Call { callee, args } => {
            let rest: Option<u32> = match args {
                Some(args) => weigh_items(args, limit),
                None => Some(0),
            };
            add_weights(weigh_expr(callee, limit), rest, limit)
        },
        ExprKind::Index { array, index } => add_weights(
            weigh_expr(array, limit),
            weigh_expr(index, limit),
            limit,
        ),
        ExprKind::Path { previous, .. } => weigh_expr(previous, limit),
        ExprKind::Distinct { ty } => weigh_ty(ty, limit),
        ExprKind::Lambda(lambda) => weigh_lambda(lambda, limit),
        ExprKind::StructDecl { fields } => weigh_fields(fields, limit),
        ExprKind::StructLiteral { ty, fields } => add_weights(
            weigh_ty(ty, limit),
            weigh_fields(fields, limit),
            limit,
        ),
        ExprKind::Comptime { body } => weigh_expr(body, limit),
        _ => Some(0),
    };
    add_weights(Some(1), inner, limit)
}

fn weigh_lambda(lambda: &Lambda, limit: u32) -> (weight: Option<u32>)
    ensures
        weight == weighed(weight_of_lambda(*lambda), limit),
    decreases *lambda, 0nat,
{
    add_weights(
        add_weights(weigh_params(&lambda.params, limit), weigh_ty(&lambda.return_ty, limit), limit),
        weigh_expr(&lambda.body, limit),
        limit,
    )
}

fn weigh_params(params: &Vec<Param>, limit: u32) -> (weight: Option<u32>)
    ensures
        weight == weighed(weight_of_params(*params, params@.len()), limit),
    decreases *params, params@.len(),
{
    let mut total: Option<u32> = Some(0);
    let mut i: usize = 0;
    while i < params.len()
        invariant
            i <= params@.len(),
            total == weighed(weight_of_params(*params, i as nat), limit),
        decreases params.len() - i,
    {
        proof {
            lemma_params_weight(*params, (i + 1) as nat, params@.len());
        }
        let one: Option<u32> = add_weights(Some(1), weigh_ty(&params[i].ty, limit), limit);
        total = add_weights(total, one, limit);
        if total.is_none() {
            return None;
        }
        i = i + 1;
    }
    total
}

fn weigh_items(items: &Vec<Option<Box<Expr>>>, limit: u32) -> (weight: Option<u32>)
    ensures
        weight == weighed(weight_of_items(*items, items@.len()), limit),
    decreases *items, items@.len(),
{
    let mut total: Option<u32> = Some(0);
    let mut i: usize = 0;
    while i < items.len()
        invariant
            i <= items@.len(),
            total == weighed(weight_of_items(*items, i as nat), limit),
        decreases items.len() - i,
    {
        proof {
            lemma_items_weight(*items, (i + 1) as nat, items@.len());
        }
        total = add_weights(total, weigh_expr(&items[i], limit), limit);
        if total.is_none() {
            return None;
        }
        i = i + 1;
    }
    total
}

fn weigh_fields(fields: &Vec<Field>, limit: u32) -> (weight: Option<u32>)
    ensures
        weight == weighed(weight_of_fields(*fields, fields@.len()), limit),
    decreases *fields, fields@.len(),
{
    let mut total: Option<u32> = Some(0);
    let mut i: usize = 0;
    while i < fields.len()
        invariant
            i <= fields@.len(),
            total == weighed(weight_of_fields(*fields, i as nat), limit),
        decreases fields.len() - i,
    {
        proof {
            lemma_fields_weight(*fields, (i + 1) as nat, fields@.len());
        }
        let one: Option<u32> = add_weights(Some(1), weigh_expr(&fields[i].value, limit), limit);
        total = add_weights(total, one, limit);
        if total.is_none() {
            return None;
        }
        i = i + 1;
    }
    total
}

fn weigh_stmt(stmt: &Stmt, limit: u32) -> (weight: Option<u32>)
    ensures
        weight == weighed(weight_of_stmt(*stmt), limit),
    decreases *stmt, 0nat,
{
    let inner: Option<u32> = match stmt {
        Stmt::Define(def) => add_weights(
            Some(2),
            add_weights(weigh_ty(&def.ty, limit), weigh_expr(&def.value, limit), limit),
            limit,
        ),
        Stmt::Assign { source, value, .. } => add_weights(
            Some(1),
            add_weights(weigh_expr(source, limit), weigh_expr(value, limit), limit),
            limit,
        ),
        Stmt::Expr { expr } => weigh_expr(expr, limit),
    };
    add_weights(Some(1), inner, limit)
}

fn weigh_stmts(stmts: &Vec<Stmt>, limit: u32) -> (weight: Option<u32>)
    ensures
        weight == weighed(weight_of_stmts(*stmts, stmts@.len()), limit),
    decreases *stmts, stmts@.len(),
{
    let mut total: Option<u32> = Some(0);
    let mut i: usize = 0;
    while i < stmts.len()
        invariant
            i <= stmts@.len(),
            total == weighed(weight_of_stmts(*stmts, i as nat), limit),
        decreases stmts.len() - i,
    {
        proof {
            lemma_stmts_weight(*stmts, (i + 1) as nat, stmts@.len());
        }
        total = add_weights(total, weigh_stmt(&stmts[i], limit), limit);
        if total.is_none() {
            return None;
        }
        i = i + 1;
    }
    total
}

impl Root {
    /// The weight of the file where it is not above `limit`.
    pub fn weigh(&self, limit: u32) -> (weight: Option<u32>)
        ensures
            weight == weighed(self.weight(), limit),
    {
        let mut total: Option<u32> = Some(0);
        let mut i: usize = 0;
        while i < self.defs.len()
            invariant
                i <= self.defs@.len(),
                total == weighed(weight_of_globals(self.defs, i as nat), limit),
            decreases self.defs.len() - i,
        {
            proof {
                lemma_globals_weight(self.defs, (i + 1) as nat, self.defs@.len());
            }
            let def: &Define = &self.defs[i];
            let one: Option<u32> = add_weights(
                Some(1),
                add_weights(weigh_ty(&def.ty, limit), weigh_expr(&def.value, limit), limit),
                limit,
            );
            total = add_weights(total, one, limit);
            if total.is_none() {
                return None;
            }
            i = i + 1;
        }
        total
    }

    /// Whether the file can be lowered with this generator of unique
    /// identifiers and this interner: whether both have room for what
    /// lowering the file can add.
    pub fn fits(&self, uid_gen: &UIDGenerator, interner: &Interner) -> (ok: bool)
        ensures
            ok == (interner@.len() + self.weight() <= u32::MAX && uid_gen.next + self.weight()
                <= u32::MAX),
    {
        let used: usize = interner.len();
        if used > 0xffff_ffff {
            return false;
        }
        let taken: u32 = if (used as u32) > uid_gen.next {
            used as u32
        } else {
            uid_gen.next
        };
        self.weigh(0xffff_ffff - taken).is_some()
    }
}

} // verus!
