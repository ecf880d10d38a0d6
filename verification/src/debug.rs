//! A printer of a file's bodies, for tests and for a look at what lowering made.

use crate::body::{Bodies, BodiesView};
use crate::hir::{Expr, ExprId, ExprView, LambdaId, LocalDef, Param, Stmt, StmtId};
use crate::interner::{name_text, Interner, Key};
use crate::lower_spec::{lowered_globals, EnvView, LowerState};
use crate::names::{FileName, Name, NameWithRange};
use crate::ops::{BinaryOp, UnaryOp};
use crate::syntax::Define;
use crate::show::{
    debug_char_text, debug_quoted, debug_quoted_char, debug_text, decimal_text, module_label,
    module_text, primitive_text, push_decimal, push_spaces, spaces,
};
use crate::text::push_char;
use vstd::prelude::*;
use vstd::string::StringExecFns;
use vstd::utf8::encode_utf8;

verus! {

/// What a printer prints from.
pub struct PrinterView {
    pub bodies: BodiesView,
    /// The interner's table: the text of each key.
    pub names: Seq<Seq<char>>,
    /// Whether each expression is printed with its index.
    pub show_idx: bool,
}

/// The separator before item `k` of a list that is written with `, `
/// between its items.
pub open spec fn comma_before(k: int) -> Seq<char> {
    if k == 0 {
        Seq::empty()
    } else {
        ", "@
    }
}

/// What follows item `k` of `n`: `text` unless the item is the last.
pub open spec fn unless_last(k: int, n: int, text: Seq<char>) -> Seq<char> {
    if k == n - 1 {
        Seq::empty()
    } else {
        text
    }
}

/// Where a block's only content is the expression at its end, the block
/// is written on one line unless that takes more than 60 bytes.
pub open spec fn is_long(inner: Seq<char>) -> bool {
    encode_utf8(inner).len() as usize > 60
}

impl PrinterView {
    /// The expression at index `i`, written at `indentation`; with its
    /// index, in gray, where indices are shown.
    pub open spec fn expr(self, i: int, indentation: nat) -> Seq<char>
        decreases i, 3nat, 0nat,
    {
        if 0 <= i < self.bodies.exprs.len() {
            if self.show_idx {
                "\x1B[90m(\x1B[0m"@ + self.node(i, indentation) + "\x1B[90m #"@ + decimal_text(
                    i as nat,
                ) + ")\x1B[0m"@
            } else {
                self.node(i, indentation)
            }
        } else {
            Seq::empty()
        }
    }

    /// The sub-expression `c` of the expression at index `parent`. A
    /// sub-expression stands before its parent in the arena.
    pub open spec fn child(self, parent: int, c: ExprId, indentation: nat) -> Seq<char>
        decreases parent, 0nat, 0nat,
    {
        if 0 <= (c.0 as int) < parent {
            self.expr(c.0 as int, indentation)
        } else {
            Seq::empty()
        }
    }

    /// The expression at index `i` as source text.
    pub open spec fn node(self, i: int, indentation: nat) -> Seq<char>
        decreases i, 2nat, 0nat,
    {
        if 0 <= i < self.bodies.exprs.len() {
            match self.bodies.exprs[i] {
                ExprView::Missing => "<missing>"@,
                ExprView::IntLiteral(n) => decimal_text(n as nat),
                ExprView::FloatLiteral(value) => value.shown,
                ExprView::BoolLiteral(b) => if b {
                    "true"@
                } else {
                    "false"@
                },
                ExprView::StringLiteral(text) => debug_text(text),
                ExprView::CharLiteral(byte) => debug_char_text(byte as char),
                ExprView::Array { size, items, ty } => "["@ + (match size {
                    Some(size) => decimal_text(size as nat),
                    None => Seq::empty(),
                }) + "]"@ + self.child(i, ty, indentation) + (match items {
                    Some(items) => "{"@ + self.array_items(i, items, items.len(), indentation)
                        + " }"@,
                    None => Seq::empty(),
                }),
                ExprView::Index { array, index } => self.child(i, array, indentation) + "["@
                    + self.child(i, index, indentation) + "]"@,
                ExprView::Cast { expr, ty } => self.child(i, expr, indentation) + " as "@
                    + self.child(i, ty, indentation),
                ExprView::Ref { mutable, expr } => "^"@ + (if mutable {
                    "mut "@
                } else {
                    Seq::empty()
                }) + self.child(i, expr, indentation),
                ExprView::Deref { pointer } => self.child(i, pointer, indentation) + "^"@,
                ExprView::Binary { lhs, rhs, op } => self.child(i, lhs, indentation) + " "@
                    + op.symbol() + " "@ + self.child(i, rhs, indentation),
                ExprView::Unary { expr, op } => op.symbol() + self.child(i, expr, indentation),
                ExprView::Block { stmts, tail_expr } => if stmts.len() == 0 {
                    match tail_expr {
                        None => "{}"@,
                        Some(tail) => {
                            let inner = self.child(i, tail, indentation + 4);
                            if is_long(inner) {
                                "{\n"@ + spaces(indentation + 4) + inner + "\n"@ + spaces(
                                    indentation,
                                ) + "}"@
                            } else {
                                "{ "@ + inner + " }"@
                            }
                        },
                    }
                } else {
                    "{\n"@ + self.stmts(i, stmts, stmts.len(), indentation + 4) + (match tail_expr {
                        Some(tail) => spaces(indentation + 4) + self.child(
                            i,
                            tail,
                            indentation + 4,
                        ) + "\n"@,
                        None => Seq::empty(),
                    }) + spaces(indentation) + "}"@
                },
                ExprView::If { condition, body, else_branch } => "if "@ + self.child(
                    i,
                    condition,
                    indentation,
                ) + " "@ + self.child(i, body, indentation) + (match else_branch {
                    Some(else_branch) => " else "@ + self.child(i, else_branch, indentation),
                    None => Seq::empty(),
                }),
                ExprView::While { condition, body } => (match condition {
                    Some(condition) => "while "@ + self.child(i, condition, indentation) + " "@,
                    None => "loop "@,
                }) + self.child(i, body, indentation),
                ExprView::Local(id) => "l"@ + decimal_text(id.0 as nat),
                ExprView::Param { idx, .. } => "p"@ + decimal_text(idx as nat),
                ExprView::Call { callee, args } => self.child(i, callee, indentation) + "("@
                    + self.args(i, args, args.len(), indentation) + ")"@,
                ExprView::SelfGlobal(name) => name_text(self.names, name.name.0),
                ExprView::Path { previous, field } => self.child(i, previous, indentation) + "."@
                    + name_text(self.names, field.name.0),
                ExprView::Lambda(id) => if (id.0 as int) < self.bodies.lambdas.len() {
                    let lambda = self.bodies.lambdas[id.0 as int];
                    "("@ + self.params(i, lambda.params, lambda.params.len(), indentation) + ") "@
                        + (match lambda.return_ty {
                        Some(return_ty) => "-> "@ + self.child(i, return_ty, indentation) + " "@,
                        None => Seq::empty(),
                    }) + (if lambda.is_extern {
                        "extern"@
                    } else {
                        self.child(i, lambda.body, indentation)
                    })
                } else {
                    Seq::empty()
                },
                ExprView::Comptime(id) => if (id.0 as int) < self.bodies.comptimes.len() {
                    "comptime "@ + self.child(
                        i,
                        self.bodies.comptimes[id.0 as int].body,
                        indentation,
                    )
                } else {
                    Seq::empty()
                },
                ExprView::StructLiteral { ty, fields } => self.child(i, ty, indentation) + " {"@
                    + self.literal_fields(i, fields, fields.len(), indentation) + "}"@,
                ExprView::PrimitiveTy(ty) => primitive_text(ty),
                ExprView::Distinct { uid, ty } => "distinct'"@ + decimal_text(uid as nat) + " "@
                    + self.child(i, ty, indentation),
                ExprView::StructDecl { uid, fields } => "struct'"@ + decimal_text(uid as nat)
                    + " {"@ + self.decl_fields(i, fields, fields.len(), indentation) + " }"@,
                ExprView::Import(file) => "import \""@ + name_text(self.names, file.0) + "\""@,
            }
        } else {
            Seq::empty()
        }
    }

    /// The first `n` items of an array literal: each after a space, with
    /// a comma after each but the last.
    pub open spec fn array_items(
        self,
        parent: int,
        items: Seq<ExprId>,
        n: nat,
        indentation: nat,
    ) -> Seq<char>
        decreases parent, 1nat, n,
    {
        if n == 0 || n > items.len() {
            Seq::empty()
        } else {
            self.array_items(parent, items, (n - 1) as nat, indentation) + " "@ + self.child(
                parent,
                items[n - 1],
                indentation,
            ) + unless_last(n - 1, items.len() as int, ","@)
        }
    }

    /// The first `n` arguments of a call, with `, ` between them.
    pub open spec fn args(self, parent: int, args: Seq<ExprId>, n: nat, indentation: nat) -> Seq<
        char,
    >
        decreases parent, 1nat, n,
    {
        if n == 0 || n > args.len() {
            Seq::empty()
        } else {
            self.args(parent, args, (n - 1) as nat, indentation) + comma_before(n - 1)
                + self.child(parent, args[n - 1], indentation)
        }
    }

    /// The first `n` parameters of a lambda: each by its position and
    /// with its type, with `, ` between them.
    pub open spec fn params(self, parent: int, params: Seq<Param>, n: nat, indentation: nat) -> Seq<
        char,
    >
        decreases parent, 1nat, n,
    {
        if n == 0 || n > params.len() {
            Seq::empty()
        } else {
            self.params(parent, params, (n - 1) as nat, indentation) + "p"@ + decimal_text(
                (n - 1) as nat,
            ) + ": "@ + self.child(parent, params[n - 1].ty, indentation) + unless_last(
                n - 1,
                params.len() as int,
                ", "@,
            )
        }
    }

    /// The first `n` fields of a struct literal: each with its name,
    /// where it has one, and its value, with `, ` between them.
    pub open spec fn literal_fields(
        self,
        parent: int,
        fields: Seq<(Option<NameWithRange>, ExprId)>,
        n: nat,
        indentation: nat,
    ) -> Seq<char>
        decreases parent, 1nat, n,
    {
        if n == 0 || n > fields.len() {
            Seq::empty()
        } else {
            self.literal_fields(parent, fields, (n - 1) as nat, indentation) + (match fields[n
                - 1].0 {
                Some(name) => name_text(self.names, name.name.0) + ": "@,
                None => Seq::empty(),
            }) + self.child(parent, fields[n - 1].1, indentation) + unless_last(
                n - 1,
                fields.len() as int,
                ", "@,
            )
        }
    }

    /// The first `n` fields of a struct declaration: each after a space,
    /// with its name, or `?` where it has none, and its type, with a
    /// comma after each but the last.
    pub open spec fn decl_fields(
        self,
        parent: int,
        fields: Seq<(Option<NameWithRange>, ExprId)>,
        n: nat,
        indentation: nat,
    ) -> Seq<char>
        decreases parent, 1nat, n,
    {
        if n == 0 || n > fields.len() {
            Seq::empty()
        } else {
            self.decl_fields(parent, fields, (n - 1) as nat, indentation) + " "@ + (match fields[n
                - 1].0 {
                Some(name) => name_text(self.names, name.name.0),
                None => "?"@,
            }) + ":"@ + self.child(parent, fields[n - 1].1, indentation) + unless_last(
                n - 1,
                fields.len() as int,
                ","@,
            )
        }
    }

    /// The first `n` statements of a block, each on a line of its own.
    pub open spec fn stmts(self, parent: int, stmts: Seq<StmtId>, n: nat, indentation: nat) -> Seq<
        char,
    >
        decreases parent, 1nat, n,
    {
        if n == 0 || n > stmts.len() {
            Seq::empty()
        } else {
            self.stmts(parent, stmts, (n - 1) as nat, indentation) + spaces(indentation)
                + self.stmt(parent, stmts[n - 1], indentation) + "\n"@
        }
    }

    /// The statement `s` of the block at index `parent`.
    pub open spec fn stmt(self, parent: int, s: StmtId, indentation: nat) -> Seq<char>
        decreases parent, 0nat, 1nat,
    {
        if (s.0 as int) < self.bodies.stmts.len() {
            match self.bodies.stmts[s.0 as int] {
                Stmt::Expr(e) => self.child(parent, e, indentation) + ";"@,
                Stmt::LocalDef(l) => if (l.0 as int) < self.bodies.local_defs.len() {
                    let def = self.bodies.local_defs[l.0 as int];
                    "l"@ + decimal_text(l.0 as nat) + " :"@ + (match def.ty {
                        Some(ty) => " "@ + self.child(parent, ty, indentation) + " "@,
                        None => Seq::empty(),
                    }) + "= "@ + self.child(parent, def.value, indentation) + ";"@
                } else {
                    Seq::empty()
                },
                Stmt::Assign(a) => if (a.0 as int) < self.bodies.assigns.len() {
                    let assign = self.bodies.assigns[a.0 as int];
                    self.child(parent, assign.source, indentation) + " = "@ + self.child(
                        parent,
                        assign.value,
                        indentation,
                    ) + ";"@
                } else {
                    Seq::empty()
                },
            }
        } else {
            Seq::empty()
        }
    }

    /// The globals with a key below `bound`, in the order of their keys:
    /// each with the name of its module and its own, and its body.
    pub open spec fn globals(self, module: Seq<char>, bound: nat) -> Seq<char>
        decreases bound,
    {
        if bound == 0 {
            Seq::empty()
        } else {
            let key = (bound - 1) as u32;
            let before = self.globals(module, (bound - 1) as nat);
            if bound <= self.names.len() && bound <= u32::MAX
                && self.bodies.global_bodies.contains_key(key) {
                before + module + "::"@ + self.names[bound - 1] + " :: "@ + self.expr(
                    self.bodies.global_bodies[key] as int,
                    0,
                ) + ";\n"@
            } else {
                before
            }
        }
    }
}

/// A printer of the bodies of one file.
struct Printer<'a> {
    bodies: &'a Bodies,
    interner: &'a Interner,
    show_idx: bool,
}

impl<'a> View for Printer<'a> {
    type V = PrinterView;

    closed spec fn view(&self) -> PrinterView {
        PrinterView { bodies: self.bodies@, names: self.interner@, show_idx: self.show_idx }
    }
}

/// The deepest indentation plus four times the index of the expression
/// that is written there never exceeds this bound: an expression stands
/// after its sub-expressions, and each level indents by four.
pub open spec fn indent_bound() -> int {
    0x4_0000_0000
}

impl<'a> Printer<'a> {
    /// Appends the text of `key`.
    fn write_name(&self, s: &mut String, key: Key)
        ensures
            final(s)@ == old(s)@ + name_text(self@.names, key),
    {
        if (key.0 as usize) < self.interner.len() {
            s.append(self.interner.lookup(key));
        } else {
            s.append("<unknown>");
        }
    }

    /// Appends the expression `idx`.
    fn write_expr(&self, s: &mut String, idx: ExprId, indentation: u64)
        requires
            self@.bodies.wf(),
            (idx.0 as int) < self@.bodies.exprs.len(),
            indentation + 4 * idx.0 <= indent_bound(),
        ensures
            final(s)@ == old(s)@ + self@.expr(idx.0 as int, indentation as nat),
        decreases idx.0, 3nat, 0nat,
    {
        if self.show_idx {
            s.append("\x1B[90m(\x1B[0m");
            self.write_node(s, idx, indentation);
            s.append("\x1B[90m #");
            push_decimal(s, idx.0 as u64);
            s.append(")\x1B[0m");
            assert(s@ =~= old(s)@ + self@.expr(idx.0 as int, indentation as nat));
        } else {
            self.write_node(s, idx, indentation);
        }
    }

    /// Appends the sub-expression `c` of the expression `parent`.
    fn write_child(&self, s: &mut String, parent: ExprId, c: ExprId, indentation: u64)
        requires
            self@.bodies.wf(),
            self@.bodies.is_child(parent.0 as int, c),
            indentation + 4 * parent.0 <= indent_bound() + 4,
        ensures
            final(s)@ == old(s)@ + self@.child(parent.0 as int, c, indentation as nat),
        decreases parent.0, 0nat, 0nat,
    {
        self.write_expr(s, c, indentation);
    }

    /// Appends the expression `idx` as source text.
    fn write_node(&self, s: &mut String, idx: ExprId, indentation: u64)
        requires
            self@.bodies.wf(),
            (idx.0 as int) < self@.bodies.exprs.len(),
            indentation + 4 * idx.0 <= indent_bound(),
        ensures
            final(s)@ == old(s)@ + self@.node(idx.0 as int, indentation as nat),
        decreases idx.0, 2nat, 0nat,
    {
        match self.bodies.expr(idx) {
            Expr::Missing => {
                self.write_literal(s, idx, indentation);
            },
            Expr::IntLiteral(..) => {
                self.write_literal(s, idx, indentation);
            },
            Expr::FloatLiteral(..) => {
                self.write_literal(s, idx, indentation);
            },
            Expr::BoolLiteral(..) => {
                self.write_literal(s, idx, indentation);
            },
            Expr::StringLiteral(..) => {
                self.write_literal(s, idx, indentation);
            },
            Expr::CharLiteral(..) => {
                self.write_literal(s, idx, indentation);
            },
            Expr::Local(..) => {
                self.write_reference(s, idx, indentation);
            },
            Expr::Param { .. } => {
                self.write_reference(s, idx, indentation);
            },
            Expr::SelfGlobal(..) => {
                self.write_reference(s, idx, indentation);
            },
            Expr::PrimitiveTy(..) => {
                self.write_reference(s, idx, indentation);
            },
            Expr::Import(..) => {
                self.write_reference(s, idx, indentation);
            },
            Expr::Path { .. } => {
                self.write_reference(s, idx, indentation);
            },
            Expr::Index { .. } => {
                self.write_operation(s, idx, indentation);
            },
            Expr::Cast { .. } => {
                self.write_operation(s, idx, indentation);
            },
            Expr::Ref { .. } => {
                self.write_operation(s, idx, indentation);
            },
            Expr::Deref { .. } => {
                self.write_operation(s, idx, indentation);
            },
            Expr::Binary { .. } => {
                self.write_operation(s, idx, indentation);
            },
            Expr::Unary { .. } => {
                self.write_operation(s, idx, indentation);
            },
            Expr::If { .. } => {
                self.write_branch(s, idx, indentation);
            },
            Expr::While { .. } => {
                self.write_branch(s, idx, indentation);
            },
            Expr::Comptime(..) => {
                self.write_wrapper(s, idx, indentation);
            },
            Expr::Distinct { .. } => {
                self.write_wrapper(s, idx, indentation);
            },
            Expr::Array { .. } => {
                self.write_array(s, idx, indentation);
            },
            Expr::Block { .. } => {
                self.write_block(s, idx, indentation);
            },
            Expr::Call { .. } => {
                self.write_call(s, idx, indentation);
            },
            Expr::Lambda(id) => {
                self.write_lambda(s, idx, *id, indentation);
            },
            Expr::StructLiteral { .. } => {
                self.write_struct_literal(s, idx, indentation);
            },
            Expr::StructDecl { .. } => {
                self.write_struct_decl(s, idx, indentation);
            },
        }
    }

    fn write_literal(&self, s: &mut String, idx: ExprId, indentation: u64)
        requires
            self@.bodies.wf(),
            (idx.0 as int) < self@.bodies.exprs.len(),
            self@.bodies.exprs[idx.0 as int].is_literal(),
            indentation + 4 * idx.0 <= indent_bound(),
        ensures
            final(s)@ == old(s)@ + self@.node(idx.0 as int, indentation as nat),
        decreases idx.0, 1nat, 0nat,
    {
        let ghost i = idx.0 as int;
        let ghost ind = indentation as nat;
        let ghost v = self@;
        assert(v.bodies.refs_in_arena(i));
        match self.bodies.expr(idx) {
            Expr::Missing => {
                s.append("<missing>");
            },
            Expr::IntLiteral(n) => {
                push_decimal(s, *n);
            },
            Expr::FloatLiteral(value) => {
                s.append(value.shown.as_str());
            },
            Expr::BoolLiteral(b) => {
                if *b {
                    s.append("true");
                } else {
                    s.append("false");
                }
            },
            Expr::StringLiteral(text) => {
                let quoted: String = debug_quoted(text.as_str());
                s.append(quoted.as_str());
            },
            Expr::CharLiteral(byte) => {
                let quoted: String = debug_quoted_char(*byte as char);
                s.append(quoted.as_str());
            },
            _ => {},
        }
    }

    fn write_reference(&self, s: &mut String, idx: ExprId, indentation: u64)
        requires
            self@.bodies.wf(),
            (idx.0 as int) < self@.bodies.exprs.len(),
            self@.bodies.exprs[idx.0 as int].is_reference(),
            indentation + 4 * idx.0 <= indent_bound(),
        ensures
            final(s)@ == old(s)@ + self@.node(idx.0 as int, indentation as nat),
        decreases idx.0, 1nat, 0nat,
    {
        let ghost i = idx.0 as int;
        let ghost ind = indentation as nat;
        let ghost v = self@;
        assert(v.bodies.refs_in_arena(i));
        match self.bodies.expr(idx) {
            Expr::Local(id) => {
                s.append("l");
                push_decimal(s, id.0 as u64);
                assert(s@ =~= old(s)@ + v.node(i, ind));
            },
            Expr::Param { idx: position, .. } => {
                s.append("p");
                push_decimal(s, *position as u64);
                assert(s@ =~= old(s)@ + v.node(i, ind));
            },
            Expr::SelfGlobal(name) => {
                self.write_name(s, name.name.0);
            },
            Expr::PrimitiveTy(ty) => {
                let text: String = ty.display();
                s.append(text.as_str());
            },
            Expr::Import(file) => {
                s.append("import \"");
                self.write_name(s, file.0);
                s.append("\"");
                assert(s@ =~= old(s)@ + v.node(i, ind));
            },
            Expr::Path { previous, field } => {
                self.write_child(s, idx, *previous, indentation);
                s.append(".");
                self.write_name(s, field.name.0);
                assert(s@ =~= old(s)@ + v.node(i, ind));
            },
            _ => {},
        }
    }

    fn write_operation(&self, s: &mut String, idx: ExprId, indentation: u64)
        requires
            self@.bodies.wf(),
            (idx.0 as int) < self@.bodies.exprs.len(),
            self@.bodies.exprs[idx.0 as int].is_operation(),
            indentation + 4 * idx.0 <= indent_bound(),
        ensures
            final(s)@ == old(s)@ + self@.node(idx.0 as int, indentation as nat),
        decreases idx.0, 1nat, 0nat,
    {
        let ghost i = idx.0 as int;
        let ghost ind = indentation as nat;
        let ghost v = self@;
        assert(v.bodies.refs_in_arena(i));
        match self.bodies.expr(idx) {
            Expr::Index { array, index } => {
                self.write_child(s, idx, *array, indentation);
                s.append("[");
                self.write_child(s, idx, *index, indentation);
                s.append("]");
                assert(s@ =~= old(s)@ + v.node(i, ind));
            },
            Expr::Cast { expr, ty } => {
                self.write_child(s, idx, *expr, indentation);
                s.append(" as ");
                self.write_child(s, idx, *ty, indentation);
                assert(s@ =~= old(s)@ + v.node(i, ind));
            },
            Expr::Ref { mutable, expr } => {
                s.append("^");
                if *mutable {
                    s.append("mut ");
                }
                self.write_child(s, idx, *expr, indentation);
                assert(s@ =~= old(s)@ + v.node(i, ind));
            },
            Expr::Deref { pointer } => {
                self.write_child(s, idx, *pointer, indentation);
                s.append("^");
                assert(s@ =~= old(s)@ + v.node(i, ind));
            },
            Expr::Binary { lhs, rhs, op } => {
                self.write_child(s, idx, *lhs, indentation);
                s.append(" ");
                write_binary_op(s, *op);
                s.append(" ");
                self.write_child(s, idx, *rhs, indentation);
                assert(s@ =~= old(s)@ + v.node(i, ind));
            },
            Expr::Unary { expr, op } => {
                write_unary_op(s, *op);
                self.write_child(s, idx, *expr, indentation);
                assert(s@ =~= old(s)@ + v.node(i, ind));
            },
            _ => {},
        }
    }

    fn write_branch(&self, s: &mut String, idx: ExprId, indentation: u64)
        requires
            self@.bodies.wf(),
            (idx.0 as int) < self@.bodies.exprs.len(),
            self@.bodies.exprs[idx.0 as int].is_branch(),
            indentation + 4 * idx.0 <= indent_bound(),
        ensures
            final(s)@ == old(s)@ + self@.node(idx.0 as int, indentation as nat),
        decreases idx.0, 1nat, 0nat,
    {
        let ghost i = idx.0 as int;
        let ghost ind = indentation as nat;
        let ghost v = self@;
        assert(v.bodies.refs_in_arena(i));
        match self.bodies.expr(idx) {
            Expr::If { condition, body, else_branch } => {
                s.append("if ");
                self.write_child(s, idx, *condition, indentation);
                s.append(" ");
                self.write_child(s, idx, *body, indentation);
                match else_branch {
                    Some(else_branch) => {
                        s.append(" else ");
                        self.write_child(s, idx, *else_branch, indentation);
                    },
                    None => {},
                }
                assert(s@ =~= old(s)@ + v.node(i, ind));
            },
            Expr::While { condition, body } => {
                match condition {
                    Some(condition) => {
                        s.append("while ");
                        self.write_child(s, idx, *condition, indentation);
                        s.append(" ");
                    },
                    None => {
                        s.append("loop ");
                    },
                }
                self.write_child(s, idx, *body, indentation);
                assert(s@ =~= old(s)@ + v.node(i, ind));
            },
            _ => {},
        }
    }

    fn write_wrapper(&self, s: &mut String, idx: ExprId, indentation: u64)
        requires
            self@.bodies.wf(),
            (idx.0 as int) < self@.bodies.exprs.len(),
            self@.bodies.exprs[idx.0 as int].is_wrapper(),
            indentation + 4 * idx.0 <= indent_bound(),
        ensures
            final(s)@ == old(s)@ + self@.node(idx.0 as int, indentation as nat),
        decreases idx.0, 1nat, 0nat,
    {
        let ghost i = idx.0 as int;
        let ghost ind = indentation as nat;
        let ghost v = self@;
        assert(v.bodies.refs_in_arena(i));
        match self.bodies.expr(idx) {
            Expr::Comptime(id) => {
                let body: ExprId = self.bodies.comptime(*id).body;
                s.append("comptime ");
                self.write_child(s, idx, body, indentation);
                assert(s@ =~= old(s)@ + v.node(i, ind));
            },
            Expr::Distinct { uid, ty } => {
                s.append("distinct'");
                push_decimal(s, *uid as u64);
                s.append(" ");
                self.write_child(s, idx, *ty, indentation);
                assert(s@ =~= old(s)@ + v.node(i, ind));
            },
            _ => {},
        }
    }

    fn write_array(&self, s: &mut String, idx: ExprId, indentation: u64)
        requires
            self@.bodies.wf(),
            (idx.0 as int) < self@.bodies.exprs.len(),
            self@.bodies.exprs[idx.0 as int] is Array,
            indentation + 4 * idx.0 <= indent_bound(),
        ensures
            final(s)@ == old(s)@ + self@.node(idx.0 as int, indentation as nat),
        decreases idx.0, 1nat, 0nat,
    {
        let ghost i = idx.0 as int;
        let ghost ind = indentation as nat;
        let ghost v = self@;
        let e: &Expr = self.bodies.expr(idx);
        match e {
            Expr::Array { size, items, ty } => {
                s.append("[");
                match size {
                    Some(size) => {
                        push_decimal(s, *size);
                    },
                    None => {},
                }
                s.append("]");
                self.write_child(s, idx, *ty, indentation);
                let ghost head = s@;
                assert(head =~= old(s)@ + ("["@ + (match *size {
                    Some(size) => decimal_text(size as nat),
                    None => Seq::empty(),
                }) + "]"@ + v.child(i, *ty, ind)));
                match items {
                    Some(items) => {
                        s.append("{");
                        let ghost open = s@;
                        let mut k: usize = 0;
                        assert(s@ =~= open + v.array_items(i, items@, 0, ind));
                        while k < items.len()
                            invariant
                                k <= items@.len(),
                                self@ == v,
                                v.bodies.wf(),
                                i == idx.0,
                                ind == indentation,
                                v.bodies.exprs[i] == e@,
                                e@ matches ExprView::Array {
                                    items: Some(its),
                                    ..
                                } && its == items@,
                                0 <= i < v.bodies.exprs.len(),
                                indentation + 4 * idx.0 <= indent_bound(),
                                s@ == open + v.array_items(i, items@, k as nat, ind),
                            decreases items.len() - k,
                        {
                            s.append(" ");
                            assert(v.bodies.is_child(i, items@[k as int]));
                            self.write_child(s, idx, items[k], indentation);
                            if k != items.len() - 1 {
                                s.append(",");
                            }
                            assert(s@ =~= open + v.array_items(i, items@, (k + 1) as nat, ind));
                            k = k + 1;
                        }
                        s.append(" }");
                        assert(s@ =~= old(s)@ + v.node(i, ind));
                    },
                    None => {
                        assert(s@ =~= old(s)@ + v.node(i, ind));
                    },
                }
            },
            _ => {},
        }
    }

    fn write_call(&self, s: &mut String, idx: ExprId, indentation: u64)
        requires
            self@.bodies.wf(),
            (idx.0 as int) < self@.bodies.exprs.len(),
            self@.bodies.exprs[idx.0 as int] is Call,
            indentation + 4 * idx.0 <= indent_bound(),
        ensures
            final(s)@ == old(s)@ + self@.node(idx.0 as int, indentation as nat),
        decreases idx.0, 1nat, 0nat,
    {
        let ghost i = idx.0 as int;
        let ghost ind = indentation as nat;
        let ghost v = self@;
        let e: &Expr = self.bodies.expr(idx);
        match e {
            Expr::Call { callee, args } => {
                self.write_child(s, idx, *callee, indentation);
                s.append("(");
                let ghost open = s@;
                let mut k: usize = 0;
                assert(s@ =~= open + v.args(i, args@, 0, ind));
                while k < args.len()
                    invariant
                        k <= args@.len(),
                        self@ == v,
                        v.bodies.wf(),
                        i == idx.0,
                        ind == indentation,
                        v.bodies.exprs[i] == e@,
                        e@ matches ExprView::Call { args: its, .. } && its
                            == args@,
                        0 <= i < v.bodies.exprs.len(),
                        indentation + 4 * idx.0 <= indent_bound(),
                        s@ == open + v.args(i, args@, k as nat, ind),
                    decreases args.len() - k,
                {
                    if k != 0 {
                        s.append(", ");
                    }
                    assert(v.bodies.is_child(i, args@[k as int]));
                    self.write_child(s, idx, args[k], indentation);
                    assert(s@ =~= open + v.args(i, args@, (k + 1) as nat, ind));
                    k = k + 1;
                }
                s.append(")");
                assert(s@ =~= old(s)@ + v.node(i, ind));
            },
            _ => {},
        }
    }

    fn write_lambda(&self, s: &mut String, idx: ExprId, id: LambdaId, indentation: u64)
        requires
            self@.bodies.wf(),
            (idx.0 as int) < self@.bodies.exprs.len(),
            self@.bodies.exprs[idx.0 as int] == ExprView::Lambda(id),
            indentation + 4 * idx.0 <= indent_bound(),
        ensures
            final(s)@ == old(s)@ + self@.node(idx.0 as int, indentation as nat),
        decreases idx.0, 1nat, 0nat,
    {
        let ghost i = idx.0 as int;
        let ghost ind = indentation as nat;
        let ghost v = self@;
        assert(v.bodies.refs_in_arena(i));
        let lambda: &crate::hir::Lambda = self.bodies.lambda(id);
        s.append("(");
        let ghost open = s@;
        let mut k: usize = 0;
        assert(s@ =~= open + v.params(i, lambda.params@, 0, ind));
        while k < lambda.params.len()
            invariant
                k <= lambda.params@.len(),
                self@ == v,
                v.bodies.wf(),
                i == idx.0,
                ind == indentation,
                v.bodies.exprs[i] == ExprView::Lambda(id),
                (id.0 as int) < v.bodies.lambdas.len(),
                lambda@ == v.bodies.lambdas[id.0 as int],
                0 <= i < v.bodies.exprs.len(),
                indentation + 4 * idx.0 <= indent_bound(),
                s@ == open + v.params(i, lambda.params@, k as nat, ind),
            decreases lambda.params.len() - k,
        {
            s.append("p");
            push_decimal(s, k as u64);
            s.append(": ");
            assert(v.bodies.is_child(i, lambda.params@[k as int].ty));
            self.write_child(s, idx, lambda.params[k].ty, indentation);
            if k != lambda.params.len() - 1 {
                s.append(", ");
            }
            assert(s@ =~= open + v.params(i, lambda.params@, (k + 1) as nat, ind));
            k = k + 1;
        }
        s.append(") ");
        match lambda.return_ty {
            Some(return_ty) => {
                s.append("-> ");
                self.write_child(s, idx, return_ty, indentation);
                s.append(" ");
            },
            None => {},
        }
        if lambda.is_extern {
            s.append("extern");
        } else {
            self.write_child(s, idx, lambda.body, indentation);
        }
        assert(s@ =~= old(s)@ + v.node(i, ind));
    }

    fn write_struct_literal(&self, s: &mut String, idx: ExprId, indentation: u64)
        requires
            self@.bodies.wf(),
            (idx.0 as int) < self@.bodies.exprs.len(),
            self@.bodies.exprs[idx.0 as int] is StructLiteral,
            indentation + 4 * idx.0 <= indent_bound(),
        ensures
            final(s)@ == old(s)@ + self@.node(idx.0 as int, indentation as nat),
        decreases idx.0, 1nat, 0nat,
    {
        let ghost i = idx.0 as int;
        let ghost ind = indentation as nat;
        let ghost v = self@;
        let e: &Expr = self.bodies.expr(idx);
        match e {
            Expr::StructLiteral { ty, fields } => {
                self.write_child(s, idx, *ty, indentation);
                s.append(" {");
                let ghost open = s@;
                let mut k: usize = 0;
                assert(s@ =~= open + v.literal_fields(i, fields@, 0, ind));
                while k < fields.len()
                    invariant
                        k <= fields@.len(),
                        self@ == v,
                        v.bodies.wf(),
                        i == idx.0,
                        ind == indentation,
                        v.bodies.exprs[i] == e@,
                        e@ matches ExprView::StructLiteral {
                            fields: its,
                            ..
                        } && its == fields@,
                        0 <= i < v.bodies.exprs.len(),
                        indentation + 4 * idx.0 <= indent_bound(),
                        s@ == open + v.literal_fields(i, fields@, k as nat, ind),
                    decreases fields.len() - k,
                {
                    match fields[k].0 {
                        Some(name) => {
                            self.write_name(s, name.name.0);
                            s.append(": ");
                        },
                        None => {},
                    }
                    assert(v.bodies.is_child(i, fields@[k as int].1));
                    self.write_child(s, idx, fields[k].1, indentation);
                    if k != fields.len() - 1 {
                        s.append(", ");
                    }
                    assert(s@ =~= open + v.literal_fields(i, fields@, (k + 1) as nat, ind));
                    k = k + 1;
                }
                s.append("}");
                assert(s@ =~= old(s)@ + v.node(i, ind));
            },
            _ => {},
        }
    }

    fn write_struct_decl(&self, s: &mut String, idx: ExprId, indentation: u64)
        requires
            self@.bodies.wf(),
            (idx.0 as int) < self@.bodies.exprs.len(),
            self@.bodies.exprs[idx.0 as int] is StructDecl,
            indentation + 4 * idx.0 <= indent_bound(),
        ensures
            final(s)@ == old(s)@ + self@.node(idx.0 as int, indentation as nat),
        decreases idx.0, 1nat, 0nat,
    {
        let ghost i = idx.0 as int;
        let ghost ind = indentation as nat;
        let ghost v = self@;
        let e: &Expr = self.bodies.expr(idx);
        match e {
            Expr::StructDecl { uid, fields } => {
                s.append("struct'");
                push_decimal(s, *uid as u64);
                s.append(" {");
                let ghost open = s@;
                let mut k: usize = 0;
                assert(s@ =~= open + v.decl_fields(i, fields@, 0, ind));
                while k < fields.len()
                    invariant
                        k <= fields@.len(),
                        self@ == v,
                        v.bodies.wf(),
                        i == idx.0,
                        ind == indentation,
                        v.bodies.exprs[i] == e@,
                        e@ matches ExprView::StructDecl { fields: its, .. }
                            && its == fields@,
                        0 <= i < v.bodies.exprs.len(),
                        indentation + 4 * idx.0 <= indent_bound(),
                        s@ == open + v.decl_fields(i, fields@, k as nat, ind),
                    decreases fields.len() - k,
                {
                    s.append(" ");
                    match fields[k].0 {
                        Some(name) => {
                            self.write_name(s, name.name.0);
                        },
                        None => {
                            s.append("?");
                        },
                    }
                    s.append(":");
                    assert(v.bodies.is_child(i, fields@[k as int].1));
                    self.write_child(s, idx, fields[k].1, indentation);
                    if k != fields.len() - 1 {
                        s.append(",");
                    }
                    assert(s@ =~= open + v.decl_fields(i, fields@, (k + 1) as nat, ind));
                    k = k + 1;
                }
                s.append(" }");
                assert(s@ =~= old(s)@ + v.node(i, ind));
            },
            _ => {},
        }
    }

    fn write_block(&self, s: &mut String, idx: ExprId, indentation: u64)
        requires
            self@.bodies.wf(),
            (idx.0 as int) < self@.bodies.exprs.len(),
            self@.bodies.exprs[idx.0 as int] is Block,
            indentation + 4 * idx.0 <= indent_bound(),
        ensures
            final(s)@ == old(s)@ + self@.node(idx.0 as int, indentation as nat),
        decreases idx.0, 1nat, 1nat,
    {
        let ghost i = idx.0 as int;
        let ghost ind = indentation as nat;
        let ghost v = self@;
        assert(v.bodies.refs_in_arena(i));
        let e: &Expr = self.bodies.expr(idx);
        match e {
            Expr::Block { stmts, tail_expr } => {
                if stmts.len() == 0 {
                    match tail_expr {
                        None => {
                            s.append("{}");
                        },
                        Some(tail) => {
                            let mut inner = String::new();
                            self.write_child(&mut inner, idx, *tail, indentation + 4);
                            assert(inner@ =~= v.child(i, *tail, ind + 4));
                            if inner.as_str().len() > 60 {
                                s.append("{\n");
                                push_spaces(s, indentation + 4);
                                s.append(inner.as_str());
                                s.append("\n");
                                push_spaces(s, indentation);
                                s.append("}");
                            } else {
                                s.append("{ ");
                                s.append(inner.as_str());
                                s.append(" }");
                            }
                            assert(s@ =~= old(s)@ + v.node(i, ind));
                        },
                    }
                } else {
                    s.append("{\n");
                    let ghost open = s@;
                    let mut k: usize = 0;
                    assert(s@ =~= open + v.stmts(i, stmts@, 0, ind + 4));
                    while k < stmts.len()
                        invariant
                            k <= stmts@.len(),
                            self@ == v,
                            v.bodies.wf(),
                            i == idx.0,
                            ind == indentation,
                            v.bodies.exprs[i] == e@,
                            e@ matches ExprView::Block { stmts: its, .. }
                                && its == stmts@,
                            0 <= i < v.bodies.exprs.len(),
                            indentation + 4 * idx.0 <= indent_bound(),
                            s@ == open + v.stmts(i, stmts@, k as nat, ind + 4),
                        decreases stmts.len() - k,
                    {
                        push_spaces(s, indentation + 4);
                        self.write_stmt(s, idx, stmts[k], Ghost(k as int), indentation + 4);
                        s.append("\n");
                        assert(s@ =~= open + v.stmts(i, stmts@, (k + 1) as nat, ind + 4));
                        k = k + 1;
                    }
                    match tail_expr {
                        Some(tail) => {
                            push_spaces(s, indentation + 4);
                            self.write_child(s, idx, *tail, indentation + 4);
                            s.append("\n");
                        },
                        None => {},
                    }
                    push_spaces(s, indentation);
                    s.append("}");
                    assert(s@ =~= old(s)@ + v.node(i, ind));
                }
            },
            _ => {},
        }
    }

    /// Appends the statement `stmt`, which is statement `k` of the block
    /// `parent`.
    fn write_stmt(
        &self,
        s: &mut String,
        parent: ExprId,
        stmt: StmtId,
        Ghost(k): Ghost<int>,
        indentation: u64,
    )
        requires
            self@.bodies.wf(),
            (parent.0 as int) < self@.bodies.exprs.len(),
            self@.bodies.exprs[parent.0 as int] matches ExprView::Block { stmts, .. } && 0 <= k
                < stmts.len() && stmts[k] == stmt,
            indentation + 4 * parent.0 <= indent_bound() + 4,
        ensures
            final(s)@ == old(s)@ + self@.stmt(parent.0 as int, stmt, indentation as nat),
        decreases parent.0, 0nat, 1nat,
    {
        let ghost i = parent.0 as int;
        let ghost ind = indentation as nat;
        let ghost v = self@;
        assert(v.bodies.refs_in_arena(i));
        assert(v.bodies.stmt_in_arena(stmt));
        match *self.bodies.stmt(stmt) {
            Stmt::Expr(e) => {
                assert(v.bodies.stmt_reads(stmt, e));
                assert(v.bodies.is_child(i, e));
                self.write_child(s, parent, e, indentation);
                s.append(";");
                assert(s@ =~= old(s)@ + v.stmt(i, stmt, ind));
            },
            Stmt::LocalDef(id) => {
                let def: LocalDef = *self.bodies.local_def(id);
                s.append("l");
                push_decimal(s, id.0 as u64);
                s.append(" :");
                match def.ty {
                    Some(ty) => {
                        s.append(" ");
                        assert(v.bodies.stmt_reads(stmt, ty));
                        assert(v.bodies.is_child(i, ty));
                        self.write_child(s, parent, ty, indentation);
                        s.append(" ");
                    },
                    None => {},
                }
                s.append("= ");
                assert(v.bodies.stmt_reads(stmt, def.value));
                assert(v.bodies.is_child(i, def.value));
                self.write_child(s, parent, def.value, indentation);
                s.append(";");
                assert(s@ =~= old(s)@ + v.stmt(i, stmt, ind));
            },
            Stmt::Assign(id) => {
                let assign: crate::hir::Assign = *self.bodies.assign(id);
                assert(v.bodies.stmt_reads(stmt, assign.source));
                assert(v.bodies.is_child(i, assign.source));
                self.write_child(s, parent, assign.source, indentation);
                s.append(" = ");
                assert(v.bodies.stmt_reads(stmt, assign.value));
                assert(v.bodies.is_child(i, assign.value));
                self.write_child(s, parent, assign.value, indentation);
                s.append(";");
                assert(s@ =~= old(s)@ + v.stmt(i, stmt, ind));
            },
        }
    }
}

/// Appends the binary operator `op`.
fn write_binary_op(s: &mut String, op: BinaryOp)
    ensures
        final(s)@ == old(s)@ + op.symbol(),
{
    match op {
        BinaryOp::Add => {
            push_char(s, '+');
        },
        BinaryOp::Sub => {
            push_char(s, '-');
        },
        BinaryOp::Mul => {
            push_char(s, '*');
        },
        BinaryOp::Div => {
            push_char(s, '/');
        },
        BinaryOp::Mod => {
            push_char(s, '%');
        },
        BinaryOp::Lt => {
            push_char(s, '<');
        },
        BinaryOp::Gt => {
            push_char(s, '>');
        },
        BinaryOp::Le => {
            push_char(s, '<');
            push_char(s, '=');
        },
        BinaryOp::Ge => {
            push_char(s, '>');
            push_char(s, '=');
        },
        BinaryOp::Eq => {
            push_char(s, '=');
            push_char(s, '=');
        },
        BinaryOp::Ne => {
            push_char(s, '!');
            push_char(s, '=');
        },
        BinaryOp::And => {
            push_char(s, '&');
            push_char(s, '&');
        },
        BinaryOp::Or => {
            push_char(s, '|');
            push_char(s, '|');
        },
    }
    assert(s@ =~= old(s)@ + op.symbol());
}

/// Appends the unary operator `op`.
fn write_unary_op(s: &mut String, op: UnaryOp)
    ensures
        final(s)@ == old(s)@ + op.symbol(),
{
    match op {
        UnaryOp::Pos => {
            push_char(s, '+');
        },
        UnaryOp::Neg => {
            push_char(s, '-');
        },
        UnaryOp::Not => {
            push_char(s, '!');
        },
    }
    assert(s@ =~= old(s)@ + op.symbol());
}

impl Bodies {
    /// The globals of the file as source text, in the order of their
    /// names' keys, each with its module's name and its own. `module` is
    /// the file's name, `project_root` the directory that module names
    /// start from. With `show_expr_idx`, each expression is written with
    /// its index.
    pub fn debug(
        &self,
        module: FileName,
        project_root: &str,
        interner: &Interner,
        show_expr_idx: bool,
    ) -> (text: String)
        requires
            self@.wf(),
            interner.wf(),
        ensures
            text@ == (PrinterView {
                bodies: self@,
                names: interner@,
                show_idx: show_expr_idx,
            }).globals(
                module_text(name_text(interner@, module.0), project_root@),
                interner@.len(),
            ),
    {
        let printer = Printer { bodies: self, interner, show_idx: show_expr_idx };
        let ghost v = printer@;
        let mut path = String::new();
        printer.write_name(&mut path, module.0);
        assert(path@ =~= name_text(interner@, module.0));
        let label: String = module_label(path.as_str(), project_root);
        let mut s = String::new();
        let n: usize = interner.len();
        let mut key: usize = 0;
        assert(s@ =~= v.globals(label@, 0));
        while key < n
            invariant
                key <= n,
                n == interner@.len(),
                n <= u32::MAX,
                printer@ == v,
                v.bodies == self@,
                v.names == interner@,
                v.bodies.wf(),
                s@ == v.globals(label@, key as nat),
            decreases n - key,
        {
            let name = Name(Key(key as u32));
            if self.has_global(name) {
                let body: ExprId = self.global_body(name);
                s.append(label.as_str());
                s.append("::");
                s.append(interner.lookup(name.0));
                s.append(" :: ");
                printer.write_expr(&mut s, body, 0);
                s.append(";\n");
                assert(s@ =~= v.globals(label@, (key + 1) as nat));
            }
            key = key + 1;
        }
        s
    }
}

/// The printed text of a lowered file is a function of what was
/// lowered: two runs of lowering on the same definitions, in the same
/// surroundings and from the same state, give the same bodies, the same
/// diagnostics, the same interner and next unique identifier, and print
/// the same text.
pub proof fn lemma_lowered_text_is_deterministic(
    env: EnvView,
    again: EnvView,
    st: LowerState,
    st_again: LowerState,
    defs: Vec<Define>,
    module: Seq<char>,
    show_idx: bool,
)
    requires
        env == again,
        st == st_again,
    ensures
        ({
            let first = lowered_globals(env, st, defs, defs@.len());
            let second = lowered_globals(again, st_again, defs, defs@.len());
            &&& first == second
            &&& (PrinterView { bodies: first.bodies, names: first.interner, show_idx }).globals(
                module,
                first.interner.len(),
            ) == (PrinterView { bodies: second.bodies, names: second.interner, show_idx }).globals(
                module,
                second.interner.len(),
            )
        }),
{
}

} // verus!
