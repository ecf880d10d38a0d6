//! What lowering computes, as mathematics: a function from the state
//! before and a piece of syntax to the state after and the node that the
//! piece was lowered to.

use crate::body::BodiesView;
use crate::hir::{
    Assign, AssignId, Comptime, ComptimeId, DiagnosticKindView, DiagnosticView, ExprId, ExprView,
    LambdaId, LambdaView, LocalDef, LocalDefId, StmtId,
};
use crate::host::{ends_in_dot_capy, resolved_import, with_separator, HostView};
use crate::interner::{distinct, key_in, position_of, table_with, Key};
use crate::literal::{int_literal_value, invalid_escapes, literal_text, written_len};
use crate::names::{FileName, Name, NameWithRange};
use crate::primitive::primitive_named;
use crate::syntax::{
    Define, Expr, ExprKind, Field, Ident, Lambda, Param, Stmt, StringComponent, StringLiteral, Ty,
};
use crate::text_range::TextRange;
use vstd::prelude::*;

verus! {

/// What stays the same while a file is lowered.
pub struct EnvView {
    /// The path of the file that is lowered.
    pub file_name: Seq<char>,
    /// The keys of the names that the file defines at its root.
    pub index: Set<u32>,
    pub host: HostView,
}

/// What changes while a file is lowered.
pub struct LowerState {
    pub bodies: BodiesView,
    /// The next unique identifier to hand out.
    pub next_uid: u32,
    /// The table of interned strings.
    pub interner: Seq<Seq<char>>,
    pub diagnostics: Seq<DiagnosticView>,
    /// The scopes of local definitions, innermost last: from a name's key
    /// to the raw index of the definition.
    pub scopes: Seq<Map<u32, u32>>,
    /// The parameters of the enclosing lambda: from a name's key to the
    /// parameter's position and range.
    pub params: Map<u32, (u32, TextRange)>,
}

/// The definition that `key` names in `scopes`: the one of the innermost
/// scope that has the name.
pub open spec fn local_in(scopes: Seq<Map<u32, u32>>, key: u32) -> Option<LocalDefId>
    decreases scopes.len(),
{
    if scopes.len() == 0 {
        None
    } else if scopes.last().contains_key(key) {
        Some(LocalDefId(scopes.last()[key]))
    } else {
        local_in(scopes.drop_last(), key)
    }
}

/// A report of an invalid escape sequence at each of `ranges`.
pub open spec fn escape_reports(ranges: Seq<TextRange>) -> Seq<DiagnosticView> {
    ranges.map_values(
        |range: TextRange| DiagnosticView { kind: DiagnosticKindView::InvalidEscape, range },
    )
}

impl LowerState {
    /// Every name and file name that the bodies and the diagnostics hold
    /// is a key of the interner.
    pub open spec fn names_known(self) -> bool {
        &&& self.bodies.names_known(self.interner.len())
        &&& forall|i: int|
            0 <= i < self.diagnostics.len() ==> (#[trigger] self.diagnostics[i]).names_below(
                self.interner.len(),
            )
    }

    /// The state at the start of a file.
    pub open spec fn initial(next_uid: u32, interner: Seq<Seq<char>>) -> LowerState {
        LowerState {
            bodies: BodiesView::empty(),
            next_uid,
            interner,
            diagnostics: Seq::empty(),
            scopes: seq![Map::empty()],
            params: Map::empty(),
        }
    }

    pub open spec fn alloc_expr(self, expr: ExprView, range: TextRange) -> (
        LowerState,
        ExprId,
    ) {
        (
            LowerState { bodies: self.bodies.with_expr(expr, range), ..self },
            ExprId(self.bodies.exprs.len() as u32),
        )
    }

    pub open spec fn alloc_stmt(self, stmt: crate::hir::Stmt) -> (LowerState, StmtId) {
        (
            LowerState { bodies: self.bodies.with_stmt(stmt), ..self },
            StmtId(self.bodies.stmts.len() as u32),
        )
    }

    pub open spec fn alloc_local_def(self, def: LocalDef) -> (LowerState, LocalDefId) {
        (
            LowerState { bodies: self.bodies.with_local_def(def), ..self },
            LocalDefId(self.bodies.local_defs.len() as u32),
        )
    }

    pub open spec fn alloc_assign(self, assign: Assign) -> (LowerState, AssignId) {
        (
            LowerState { bodies: self.bodies.with_assign(assign), ..self },
            AssignId(self.bodies.assigns.len() as u32),
        )
    }

    pub open spec fn alloc_lambda(self, lambda: LambdaView) -> (LowerState, LambdaId) {
        (
            LowerState { bodies: self.bodies.with_lambda(lambda), ..self },
            LambdaId(self.bodies.lambdas.len() as u32),
        )
    }

    pub open spec fn alloc_comptime(self, comptime: Comptime) -> (LowerState, ComptimeId) {
        (
            LowerState { bodies: self.bodies.with_comptime(comptime), ..self },
            ComptimeId(self.bodies.comptimes.len() as u32),
        )
    }

    /// Interns `text`.
    pub open spec fn interned(self, text: Seq<char>) -> (LowerState, Key) {
        (
            LowerState { interner: table_with(self.interner, text), ..self },
            Key(key_in(self.interner, text) as u32),
        )
    }

    /// Reports a diagnostic.
    pub open spec fn diagnosed(self, kind: DiagnosticKindView, range: TextRange) -> LowerState {
        LowerState {
            diagnostics: self.diagnostics.push(DiagnosticView { kind, range }),
            ..self
        }
    }

    /// Reports an invalid escape sequence at each of `ranges`.
    pub open spec fn diagnosed_escapes(self, ranges: Seq<TextRange>) -> LowerState {
        LowerState { diagnostics: self.diagnostics + escape_reports(ranges), ..self }
    }

    /// Hands out a unique identifier.
    pub open spec fn minted(self) -> (LowerState, u32) {
        (LowerState { next_uid: (self.next_uid + 1) as u32, ..self }, self.next_uid)
    }

    /// Opens a scope inside the current one.
    pub open spec fn entered_scope(self) -> LowerState {
        LowerState { scopes: self.scopes.push(Map::empty()), ..self }
    }

    /// Closes the innermost scope.
    pub open spec fn left_scope(self) -> LowerState {
        if self.scopes.len() == 0 {
            self
        } else {
            LowerState { scopes: self.scopes.drop_last(), ..self }
        }
    }

    /// Binds the name `key` to `def` in the innermost scope.
    pub open spec fn with_local(self, key: Key, def: LocalDefId) -> LowerState {
        if self.scopes.len() == 0 {
            self
        } else {
            LowerState {
                scopes: self.scopes.update(
                    self.scopes.len() - 1,
                    self.scopes.last().insert(key.0, def.0),
                ),
                ..self
            }
        }
    }

    /// The state in which a lambda's or a compile-time block's body is
    /// lowered: it sees no local of the code around it, and only the
    /// parameters `params`.
    pub open spec fn detached(self, params: Map<u32, (u32, TextRange)>) -> LowerState {
        LowerState { scopes: Seq::empty(), params, ..self }
    }

    /// The state after a body was lowered, back in the scopes and with
    /// the parameters of `outer`.
    pub open spec fn reattached(self, outer: LowerState) -> LowerState {
        LowerState { scopes: outer.scopes, params: outer.params, ..self }
    }
}

/// An integer literal with the text `text`, at `range`.
pub open spec fn lowered_int_literal(st: LowerState, text: Option<String>, range: TextRange) -> (
    LowerState,
    ExprView,
) {
    match text {
        None => (st, ExprView::Missing),
        Some(text) => match int_literal_value(text@) {
            Some(value) => (st, ExprView::IntLiteral(value)),
            None => (
                st.diagnosed(DiagnosticKindView::OutOfRangeIntLiteral, range),
                ExprView::Missing,
            ),
        },
    }
}

/// A string literal: its text with the escape sequences resolved. Each
/// escape sequence that stands for no character is reported and left out.
pub open spec fn lowered_string_literal(st: LowerState, components: Seq<StringComponent>) -> (
    LowerState,
    ExprView,
) {
    (
        st.diagnosed_escapes(invalid_escapes(components, components.len())),
        ExprView::StringLiteral(literal_text(components, components.len())),
    )
}

/// The byte of a character literal that is written with exactly one
/// character or escape sequence, standing for `text`.
pub open spec fn single_char(text: Seq<char>) -> char {
    if text.len() > 0 {
        text[0]
    } else {
        '\0'
    }
}

/// A character literal at `range`. It must be written with exactly one
/// character or escape sequence, and that must fit a byte; else it is
/// reported, and the literal holds the byte 0.
pub open spec fn lowered_char_literal(
    st: LowerState,
    components: Seq<StringComponent>,
    range: TextRange,
) -> (LowerState, ExprView) {
    let st = st.diagnosed_escapes(invalid_escapes(components, components.len()));
    let written = written_len(components, components.len());
    let c = single_char(literal_text(components, components.len()));
    if written == 0 {
        (st.diagnosed(DiagnosticKindView::EmptyCharLiteral, range), ExprView::CharLiteral(0))
    } else if written > 1 {
        (
            st.diagnosed(DiagnosticKindView::TooManyCharsInCharLiteral, range),
            ExprView::CharLiteral(0),
        )
    } else if c as u32 > 255 {
        (st.diagnosed(DiagnosticKindView::NonU8CharLiteral, range), ExprView::CharLiteral(0))
    } else {
        (st, ExprView::CharLiteral(c as u8))
    }
}

/// A reference to the variable `ident`. The name is looked up among the
/// locals, innermost scope first, then among the parameters, then among
/// the globals of the file, then among the primitive types. A name that
/// none of them has is reported.
pub open spec fn lowered_var_ref(env: EnvView, st: LowerState, ident: Ident) -> (
    LowerState,
    ExprView,
) {
    let (st, key) = st.interned(ident.text@);
    match local_in(st.scopes, key.0) {
        Some(def) => (st, ExprView::Local(def)),
        None => if st.params.contains_key(key.0) {
            (st, ExprView::Param { idx: st.params[key.0].0, range: st.params[key.0].1 })
        } else if env.index.contains(key.0) {
            (st, ExprView::SelfGlobal(NameWithRange { name: Name(key), range: ident.range }))
        } else {
            match primitive_named(ident.text@) {
                Some(ty) => (st, ExprView::PrimitiveTy(ty)),
                None => (
                    st.diagnosed(DiagnosticKindView::UndefinedRef { name: key }, ident.range),
                    ExprView::Missing,
                ),
            }
        },
    }
}

/// The import of the file at `path`.
pub open spec fn imported(st: LowerState, path: Seq<char>) -> (LowerState, ExprView) {
    let (st, key) = st.interned(path);
    (
        LowerState { bodies: st.bodies.with_import(FileName(key)), ..st },
        ExprView::Import(FileName(key)),
    )
}

/// An import of the file that the string literal `file` names.
///
/// The literal's text, with `/` and `\` written as the machine's
/// separator, must end in `.capy`. Where there is a disk, the path is
/// resolved against the importing file's directory and must be a file
/// that exists; without a disk the text is taken as the path. Anything
/// else is reported, and nothing is imported.
pub open spec fn lowered_import(env: EnvView, st: LowerState, file: Option<StringLiteral>) -> (
    LowerState,
    ExprView,
) {
    match file {
        None => (st, ExprView::Missing),
        Some(file) => {
            let invalid = invalid_escapes(file.components@, file.components@.len());
            let text = with_separator(
                literal_text(file.components@, file.components@.len()),
                env.host.separator,
            );
            let st = st.diagnosed_escapes(invalid);
            if invalid.len() > 0 {
                (st, ExprView::Missing)
            } else if !ends_in_dot_capy(text) {
                (
                    st.diagnosed(DiagnosticKindView::ImportMustEndInDotCapy, file.range),
                    ExprView::Missing,
                )
            } else {
                match env.host.disk {
                    Some(disk) => {
                        let path = resolved_import(disk.current_dir, env.file_name, text);
                        if disk.has_file(path) {
                            imported(st, path)
                        } else {
                            (
                                st.diagnosed(
                                    DiagnosticKindView::ImportDoesNotExist { file: path },
                                    file.range,
                                ),
                                ExprView::Missing,
                            )
                        }
                    },
                    None => imported(st, text),
                }
            }
        },
    }
}

/// The size of an array literal, between its brackets, checked against
/// the number of its items. A size that is no integer literal is
/// reported, and so is one that differs from the number of items.
pub open spec fn lowered_array_size(
    st: LowerState,
    size: Option<Option<Box<Expr>>>,
    items: Option<Seq<ExprId>>,
    body_range: TextRange,
) -> (LowerState, Option<u64>) {
    match size {
        Some(Some(size)) => match size.kind {
            ExprKind::IntLiteral { text } => {
                let (st, value) = lowered_int_literal(st, text, size.range);
                match (value, items) {
                    (ExprView::IntLiteral(n), Some(items)) => (
                        if n != items.len() {
                            st.diagnosed(
                                DiagnosticKindView::ArraySizeMismatch {
                                    found: items.len() as u32,
                                    expected: n as u32,
                                },
                                body_range,
                            )
                        } else {
                            st
                        },
                        Some(n),
                    ),
                    (ExprView::IntLiteral(n), None) => (st, Some(n)),
                    _ => (st, None),
                }
            },
            _ => (st.diagnosed(DiagnosticKindView::ArraySizeNotConst, size.range), None),
        },
        _ => (st, None),
    }
}

/// The expression in the slot `e`; an expression of its own, `Missing`,
/// where the slot is empty, with the range `around` of what the slot is
/// part of. `top` says that the expression is the value
/// of a global: only there may a lambda be `extern`.
pub open spec fn lowered_expr(
    env: EnvView,
    st: LowerState,
    e: Option<Box<Expr>>,
    top: bool,
    around: TextRange,
) -> (LowerState, ExprId)
    decreases e, 0nat,
{
    match e {
        None => st.alloc_expr(ExprView::Missing, around),
        Some(e) => {
            let (st, raw) = lowered_raw(env, st, *e, top);
            st.alloc_expr(raw, e.range)
        },
    }
}

/// The expression of a type annotation.
pub open spec fn lowered_ty(env: EnvView, st: LowerState, ty: Option<Ty>, around: TextRange) -> (
    LowerState,
    ExprId,
)
    decreases ty, 0nat,
{
    match ty {
        None => st.alloc_expr(ExprView::Missing, around),
        Some(ty) => lowered_expr(env, st, ty.expr, false, around),
    }
}

/// The expression in the slot `e`, where the slot is not empty.
pub open spec fn lowered_present(env: EnvView, st: LowerState, e: Option<Box<Expr>>) -> (
    LowerState,
    Option<ExprId>,
)
    decreases e, 1nat,
{
    match e {
        None => (st, None),
        Some(present) => {
            let (st, id) = lowered_expr(env, st, e, false, present.range);
            (st, Some(id))
        },
    }
}

/// The expression of a type annotation, where there is one and it
/// holds an expression.
pub open spec fn lowered_present_ty(env: EnvView, st: LowerState, ty: Option<Ty>) -> (
    LowerState,
    Option<ExprId>,
)
    decreases ty, 0nat,
{
    match ty {
        None => (st, None),
        Some(ty) => lowered_present(env, st, ty.expr),
    }
}

/// What the expression `e` is lowered to, before it gets its place in
/// the arena.
pub open spec fn lowered_raw(env: EnvView, st: LowerState, e: Expr, top: bool) -> (
    LowerState,
    ExprView,
)
    decreases e, 0nat,
{
    match e.kind {
        ExprKind::Cast { expr, ty } => {
            let (st, expr) = lowered_expr(env, st, expr, false, e.range);
            let (st, ty) = lowered_ty(env, st, ty, e.range);
            (st, ExprView::Cast { expr, ty })
        },
        ExprKind::Ref { mutable, expr } => {
            let (st, expr) = lowered_expr(env, st, expr, false, e.range);
            (st, ExprView::Ref { mutable, expr })
        },
        ExprKind::Deref { pointer } => {
            let (st, pointer) = lowered_expr(env, st, pointer, false, e.range);
            (st, ExprView::Deref { pointer })
        },
        ExprKind::Binary { lhs, rhs, op } => {
            let (st, lhs) = lowered_expr(env, st, lhs, false, e.range);
            let (st, rhs) = lowered_expr(env, st, rhs, false, e.range);
            match op {
                Some(op) => (st, ExprView::Binary { lhs, rhs, op }),
                None => (st, ExprView::Missing),
            }
        },
        ExprKind::Unary { expr, op } => {
            let (st, expr) = lowered_expr(env, st, expr, false, e.range);
            match op {
                Some(op) => (st, ExprView::Unary { expr, op }),
                None => (st, ExprView::Missing),
            }
        },
        ExprKind::Array { size, ty, body } => {
            let (st, ty) = lowered_ty(env, st, ty, e.range);
            match body {
                Some(body) => {
                    let (st, items) = lowered_items(
                        env,
                        st,
                        body.items,
                        body.items@.len(),
                        e.range,
                    );
                    let (st, size) = lowered_array_size(st, size, Some(items), body.range);
                    (st, ExprView::Array { size, items: Some(items), ty })
                },
                None => {
                    let (st, size) = lowered_array_size(st, size, None, e.range);
                    (st, ExprView::Array { size, items: None, ty })
                },
            }
        },
        ExprKind::Block { stmts, tail_expr } => {
            let (st, stmts) = lowered_stmts(env, st.entered_scope(), stmts, stmts@.len(), e.range);
            let (st, tail_expr) = lowered_present(env, st, tail_expr);
            (st.left_scope(), ExprView::Block { stmts, tail_expr })
        },
        ExprKind::If { condition, body, else_branch } => {
            let (st, condition) = lowered_expr(env, st, condition, false, e.range);
            let (st, body) = lowered_expr(env, st, body, false, e.range);
            match else_branch {
                Some(else_body) => {
                    let (st, else_body) = lowered_expr(env, st, else_body, false, e.range);
                    (st, ExprView::If { condition, body, else_branch: Some(else_body) })
                },
                None => (st, ExprView::If { condition, body, else_branch: None }),
            }
        },
        ExprKind::While { condition, body } => {
            let (st, condition) = lowered_present(env, st, condition);
            let (st, body) = lowered_expr(env, st, body, false, e.range);
            (st, ExprView::While { condition, body })
        },
        ExprKind::Call { callee, args } => {
            let (st, callee) = lowered_expr(env, st, callee, false, e.range);
            match args {
                Some(args) => {
                    let (st, args) = lowered_items(env, st, args, args@.len(), e.range);
                    (st, ExprView::Call { callee, args })
                },
                None => (st, ExprView::Call { callee, args: Seq::empty() }),
            }
        },
        ExprKind::Index { array, index } => {
            let (st, array) = lowered_expr(env, st, array, false, e.range);
            let (st, index) = lowered_expr(env, st, index, false, e.range);
            (st, ExprView::Index { array, index })
        },
        ExprKind::VarRef { name } => match name {
            Some(ident) => lowered_var_ref(env, st, ident),
            None => (st, ExprView::Missing),
        },
        ExprKind::Path { previous, field } => match field {
            Some(field) => {
                let (st, key) = st.interned(field.text@);
                let (st, previous) = lowered_expr(env, st, previous, false, e.range);
                (
                    st,
                    ExprView::Path {
                        previous,
                        field: NameWithRange { name: Name(key), range: field.range },
                    },
                )
            },
            None => (st, ExprView::Missing),
        },
        ExprKind::IntLiteral { text } => lowered_int_literal(st, text, e.range),
        ExprKind::FloatLiteral { value } => (st, ExprView::FloatLiteral(value@)),
        ExprKind::BoolLiteral { value } => (st, ExprView::BoolLiteral(value)),
        ExprKind::CharLiteral { components } => lowered_char_literal(st, components@, e.range),
        ExprKind::StringLiteral(literal) => lowered_string_literal(st, literal.components@),
        ExprKind::Distinct { ty } => {
            let (st, ty) = lowered_ty(env, st, ty, e.range);
            let (st, uid) = st.minted();
            (st, ExprView::Distinct { uid, ty })
        },
        ExprKind::Lambda(lambda) => lowered_lambda(env, st, lambda, top, e.range),
        ExprKind::StructDecl { fields } => {
            let (st, fields) = lowered_fields(env, st, fields, fields@.len(), e.range);
            let (st, uid) = st.minted();
            (st, ExprView::StructDecl { uid, fields })
        },
        ExprKind::StructLiteral { ty, fields } => {
            let (st, ty) = lowered_ty(env, st, ty, e.range);
            let (st, fields) = lowered_fields(env, st, fields, fields@.len(), e.range);
            (st, ExprView::StructLiteral { ty, fields })
        },
        ExprKind::Import { file } => lowered_import(env, st, file),
        ExprKind::Comptime { body } => {
            let (inner, body) = lowered_expr(env, st.detached(Map::empty()), body, false, e.range);
            let (st, id) = inner.reattached(st).alloc_comptime(Comptime { body });
            (st, ExprView::Comptime(id))
        },
    }
}

/// A lambda. Its parameter types and return type are lowered where the
/// lambda stands; its body is lowered detached from there, so that it
/// sees its parameters and nothing else. `extern` is reported on a lambda
/// that is not the value of a global.
pub open spec fn lowered_lambda(
    env: EnvView,
    st: LowerState,
    lambda: Lambda,
    top: bool,
    around: TextRange,
) -> (LowerState, ExprView)
    decreases lambda, 0nat,
{
    let (st, params, keys) = lowered_params(env, st, lambda.params, lambda.params@.len(), around);
    let (st, return_ty) = lowered_present_ty(env, st, lambda.return_ty);
    let st = match lambda.extern_range {
        Some(range) => if top {
            st
        } else {
            st.diagnosed(DiagnosticKindView::NonGlobalExtern, range)
        },
        None => st,
    };
    let (inner, body) = lowered_expr(env, st.detached(keys), lambda.body, false, around);
    let (st, id) = inner.reattached(st).alloc_lambda(
        LambdaView {
            params,
            params_range: lambda.params_range,
            return_ty,
            body,
            is_extern: lambda.extern_range is Some,
        },
    );
    (st, ExprView::Lambda(id))
}

/// The first `n` parameters of a lambda: the parameters, and the table
/// from their names to their positions and ranges. Of two parameters
/// with one name the later one has the name.
pub open spec fn lowered_params(
    env: EnvView,
    st: LowerState,
    params: Vec<Param>,
    n: nat,
    around: TextRange,
) -> (LowerState, Seq<crate::hir::Param>, Map<u32, (u32, TextRange)>)
    decreases params, n,
{
    if n == 0 || n > params@.len() {
        (st, Seq::empty(), Map::empty())
    } else {
        let (st, lowered, keys) = lowered_params(env, st, params, (n - 1) as nat, around);
        let param = params@[n - 1];
        match param.name {
            Some(ident) => {
                let (st, key) = st.interned(ident.text@);
                let (st, ty) = lowered_ty(env, st, param.ty, around);
                (
                    st,
                    lowered.push(crate::hir::Param { name: Some(Name(key)), ty }),
                    keys.insert(key.0, ((n - 1) as u32, param.range)),
                )
            },
            None => {
                let (st, ty) = lowered_ty(env, st, param.ty, around);
                (st, lowered.push(crate::hir::Param { name: None, ty }), keys)
            },
        }
    }
}

/// The first `n` of the expressions `items`, in order.
pub open spec fn lowered_items(
    env: EnvView,
    st: LowerState,
    items: Vec<Option<Box<Expr>>>,
    n: nat,
    around: TextRange,
) -> (LowerState, Seq<ExprId>)
    decreases items, n,
{
    if n == 0 || n > items@.len() {
        (st, Seq::empty())
    } else {
        let (st, lowered) = lowered_items(env, st, items, (n - 1) as nat, around);
        let (st, item) = lowered_expr(env, st, items@[n - 1], false, around);
        (st, lowered.push(item))
    }
}

/// The first `n` of the fields `fields`, in order: each with its name,
/// where it has one, and its type or value.
pub open spec fn lowered_fields(
    env: EnvView,
    st: LowerState,
    fields: Vec<Field>,
    n: nat,
    around: TextRange,
) -> (LowerState, Seq<(Option<NameWithRange>, ExprId)>)
    decreases fields, n,
{
    if n == 0 || n > fields@.len() {
        (st, Seq::empty())
    } else {
        let (st, lowered) = lowered_fields(env, st, fields, (n - 1) as nat, around);
        let field = fields@[n - 1];
        match field.name {
            Some(ident) => {
                let (st, key) = st.interned(ident.text@);
                let (st, value) = lowered_expr(env, st, field.value, false, around);
                (
                    st,
                    lowered.push(
                        (Some(NameWithRange { name: Name(key), range: ident.range }), value),
                    ),
                )
            },
            None => {
                let (st, value) = lowered_expr(env, st, field.value, false, around);
                (st, lowered.push((None, value)))
            },
        }
    }
}

/// A statement. A definition binds its name in the innermost scope, after
/// its type and value are lowered: the value does not see the name.
pub open spec fn lowered_stmt(env: EnvView, st: LowerState, stmt: Stmt, around: TextRange) -> (
    LowerState,
    crate::hir::Stmt,
)
    decreases stmt, 0nat,
{
    match stmt {
        Stmt::Define(def) => {
            let (st, ty) = lowered_present_ty(env, st, def.ty);
            let (st, value) = lowered_expr(env, st, def.value, false, around);
            let (st, id) = st.alloc_local_def(
                LocalDef { mutable: def.mutable, ty, value, range: def.range },
            );
            match def.name {
                Some(ident) => {
                    let (st, key) = st.interned(ident.text@);
                    (st.with_local(key, id), crate::hir::Stmt::LocalDef(id))
                },
                None => (st, crate::hir::Stmt::LocalDef(id)),
            }
        },
        Stmt::Assign { source, value, range } => {
            let (st, source) = lowered_expr(env, st, source, false, around);
            let (st, value) = lowered_expr(env, st, value, false, around);
            let (st, id) = st.alloc_assign(Assign { source, value, range });
            (st, crate::hir::Stmt::Assign(id))
        },
        Stmt::Expr { expr } => {
            let (st, expr) = lowered_expr(env, st, expr, false, around);
            (st, crate::hir::Stmt::Expr(expr))
        },
    }
}

/// The first `n` of the statements `stmts`, in order.
pub open spec fn lowered_stmts(
    env: EnvView,
    st: LowerState,
    stmts: Vec<Stmt>,
    n: nat,
    around: TextRange,
) -> (LowerState, Seq<StmtId>)
    decreases stmts, n,
{
    if n == 0 || n > stmts@.len() {
        (st, Seq::empty())
    } else {
        let (st, lowered) = lowered_stmts(env, st, stmts, (n - 1) as nat, around);
        let (st, stmt) = lowered_stmt(env, st, stmts@[n - 1], around);
        let (st, id) = st.alloc_stmt(stmt);
        (st, lowered.push(id))
    }
}

/// A definition at the root of a file. One without a name is skipped,
/// and so is one whose name an earlier definition has. Else the file's
/// bodies get the expression of its type annotation, where it has one,
/// and the expression of its value.
pub open spec fn lowered_global(env: EnvView, st: LowerState, def: Define) -> LowerState
    decreases def, 0nat,
{
    match def.name {
        None => st,
        Some(ident) => {
            let (st, key) = st.interned(ident.text@);
            if st.bodies.global_bodies.contains_key(key.0) {
                st
            } else {
                let st = match def.ty {
                    Some(ty) => {
                        let (st, ty) = lowered_expr(env, st, ty.expr, false, def.range);
                        LowerState { bodies: st.bodies.with_global_ty(Name(key), ty), ..st }
                    },
                    None => st,
                };
                let (st, body) = lowered_expr(env, st, def.value, true, def.range);
                LowerState { bodies: st.bodies.with_global_body(Name(key), body), ..st }
            }
        },
    }
}

/// The first `n` of the definitions at the root of a file, in order.
pub open spec fn lowered_globals(
    env: EnvView,
    st: LowerState,
    defs: Vec<Define>,
    n: nat,
) -> LowerState
    decreases defs, n,
{
    if n == 0 || n > defs@.len() {
        st
    } else {
        lowered_global(env, lowered_globals(env, st, defs, (n - 1) as nat), defs@[n - 1])
    }
}

/// The path that the import `file` names, with the machine's separator.
pub open spec fn import_text(env: EnvView, file: StringLiteral) -> Seq<char> {
    with_separator(literal_text(file.components@, file.components@.len()), env.host.separator)
}

/// Two imports that resolve to one path are one import. Where the path
/// is a file of the disk, both are lowered to `Import` of one file name,
/// which is the key of the resolved path; the second import adds nothing
/// to the interner nor to the imports of the file, and neither import is
/// reported.
pub proof fn lemma_imports_of_one_path(
    env: EnvView,
    st: LowerState,
    first: StringLiteral,
    second: StringLiteral,
    path: Seq<char>,
)
    requires
        distinct(st.interner),
        st.interner.len() < u32::MAX,
        env.host.disk is Some,
        invalid_escapes(first.components@, first.components@.len()).len() == 0,
        invalid_escapes(second.components@, second.components@.len()).len() == 0,
        ends_in_dot_capy(import_text(env, first)),
        ends_in_dot_capy(import_text(env, second)),
        path == resolved_import(
            env.host.disk->0.current_dir,
            env.file_name,
            import_text(env, first),
        ),
        path == resolved_import(
            env.host.disk->0.current_dir,
            env.file_name,
            import_text(env, second),
        ),
        env.host.disk->0.has_file(path),
    ensures
        ({
            let (once, one) = lowered_import(env, st, Some(first));
            let (twice, other) = lowered_import(env, once, Some(second));
            let key = key_in(st.interner, path);
            &&& one == ExprView::Import(FileName(Key(key as u32)))
            &&& other == one
            &&& once.interner[key] == path
            &&& once.bodies.imports.contains(key as u32)
            &&& twice.interner == once.interner
            &&& twice.bodies.imports == once.bodies.imports
            &&& twice.diagnostics == st.diagnostics
        }),
{
    let (once, one) = lowered_import(env, st, Some(first));
    let (twice, other) = lowered_import(env, once, Some(second));
    let key = key_in(st.interner, path);
    assert(0 <= key < once.interner.len() && once.interner[key] == path);
    assert(distinct(once.interner));
    assert(position_of(once.interner, path) == Some(key));
    assert(escape_reports(Seq::<TextRange>::empty()) =~= Seq::empty());
    assert(invalid_escapes(first.components@, first.components@.len()) =~= Seq::empty());
    assert(invalid_escapes(second.components@, second.components@.len()) =~= Seq::empty());
    assert(once.diagnostics =~= st.diagnostics);
    assert(twice.diagnostics =~= st.diagnostics);
    assert(twice.bodies.imports =~= once.bodies.imports);
}

/// The body of a lambda and the body of a compile-time block see no
/// local of the code around them: they are lowered in a state without
/// scopes, and a name that only the code around them defines is not
/// found there.
pub proof fn lemma_bodies_do_not_capture(
    st: LowerState,
    params: Map<u32, (u32, TextRange)>,
    key: u32,
)
    ensures
        local_in(st.detached(params).scopes, key) is None,
        st.detached(Map::empty()).params.contains_key(key) == false,
        st.detached(params).reattached(st).scopes == st.scopes,
        st.detached(params).reattached(st).params == st.params,
{
}

} // verus!
