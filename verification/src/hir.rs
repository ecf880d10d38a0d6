//! The high-level intermediate representation of one file: expressions,
//! statements and the other nodes that lowering produces. Nodes live in
//! arenas and name each other by index.

use crate::interner::Key;
use crate::names::{FileName, Fqn, Name, NameWithRange};
use crate::ops::{BinaryOp, UnaryOp};
use crate::syntax::FloatValue;
use crate::text_range::TextRange;
use vstd::prelude::*;

verus! {

/// The index of an expression in its file's arena of expressions.
#[derive(Clone, Copy, Debug, PartialEq, Eq, Structural, Hash, PartialOrd, Ord)]
pub struct ExprId(pub u32);

/// The index of a statement in its file's arena of statements.
#[derive(Clone, Copy, Debug, PartialEq, Eq, Structural, Hash, PartialOrd, Ord)]
pub struct StmtId(pub u32);

/// The index of a local definition in its file's arena.
#[derive(Clone, Copy, Debug, PartialEq, Eq, Structural, Hash, PartialOrd, Ord)]
pub struct LocalDefId(pub u32);

/// The index of an assignment in its file's arena.
#[derive(Clone, Copy, Debug, PartialEq, Eq, Structural, Hash, PartialOrd, Ord)]
pub struct AssignId(pub u32);

/// The index of a lambda in its file's arena.
#[derive(Clone, Copy, Debug, PartialEq, Eq, Structural, Hash, PartialOrd, Ord)]
pub struct LambdaId(pub u32);

/// The index of a compile-time block in its file's arena.
#[derive(Clone, Copy, Debug, PartialEq, Eq, Structural, Hash, PartialOrd, Ord)]
pub struct ComptimeId(pub u32);

/// A type that is named by a primitive identifier. The widths of `isize`
/// and `usize` are written as `u32::MAX`.
#[derive(Clone, Copy, Debug, PartialEq, Eq, Structural)]
pub enum PrimitiveTy {
    IInt(u32),
    UInt(u32),
    Float(u32),
    Bool,
    String,
    Char,
    Type,
    Any,
    Void,
}

#[derive(Debug, Clone, PartialEq)]
pub enum Expr {
    Missing,
    IntLiteral(u64),
    FloatLiteral(FloatValue),
    BoolLiteral(bool),
    StringLiteral(String),
    CharLiteral(u8),
    Cast { expr: ExprId, ty: ExprId },
    Ref { mutable: bool, expr: ExprId },
    Deref { pointer: ExprId },
    Binary { lhs: ExprId, rhs: ExprId, op: BinaryOp },
    Unary { expr: ExprId, op: UnaryOp },
    Array { size: Option<u64>, items: Option<Vec<ExprId>>, ty: ExprId },
    Index { array: ExprId, index: ExprId },
    Block { stmts: Vec<StmtId>, tail_expr: Option<ExprId> },
    If { condition: ExprId, body: ExprId, else_branch: Option<ExprId> },
    While { condition: Option<ExprId>, body: ExprId },
    Local(LocalDefId),
    SelfGlobal(NameWithRange),
    Param { idx: u32, range: TextRange },
    Path { previous: ExprId, field: NameWithRange },
    Call { callee: ExprId, args: Vec<ExprId> },
    Lambda(LambdaId),
    Comptime(ComptimeId),
    /// a primitive type such as `i32` or `bool`
    PrimitiveTy(PrimitiveTy),
    Distinct { uid: u32, ty: ExprId },
    StructDecl { uid: u32, fields: Vec<(Option<NameWithRange>, ExprId)> },
    StructLiteral { ty: ExprId, fields: Vec<(Option<NameWithRange>, ExprId)> },
    Import(FileName),
}

/// What a floating-point literal holds, as mathematics sees it.
pub struct FloatValueView {
    pub bits: u64,
    pub shown: Seq<char>,
}

impl View for FloatValue {
    type V = FloatValueView;

    open spec fn view(&self) -> FloatValueView {
        FloatValueView { bits: self.bits, shown: self.shown@ }
    }
}

/// An expression, with sequences for its lists and its text.
pub enum ExprView {
    Missing,
    IntLiteral(u64),
    FloatLiteral(FloatValueView),
    BoolLiteral(bool),
    StringLiteral(Seq<char>),
    CharLiteral(u8),
    Cast { expr: ExprId, ty: ExprId },
    Ref { mutable: bool, expr: ExprId },
    Deref { pointer: ExprId },
    Binary { lhs: ExprId, rhs: ExprId, op: BinaryOp },
    Unary { expr: ExprId, op: UnaryOp },
    Array { size: Option<u64>, items: Option<Seq<ExprId>>, ty: ExprId },
    Index { array: ExprId, index: ExprId },
    Block { stmts: Seq<StmtId>, tail_expr: Option<ExprId> },
    If { condition: ExprId, body: ExprId, else_branch: Option<ExprId> },
    While { condition: Option<ExprId>, body: ExprId },
    Local(LocalDefId),
    SelfGlobal(NameWithRange),
    Param { idx: u32, range: TextRange },
    Path { previous: ExprId, field: NameWithRange },
    Call { callee: ExprId, args: Seq<ExprId> },
    Lambda(LambdaId),
    Comptime(ComptimeId),
    PrimitiveTy(PrimitiveTy),
    Distinct { uid: u32, ty: ExprId },
    StructDecl { uid: u32, fields: Seq<(Option<NameWithRange>, ExprId)> },
    StructLiteral { ty: ExprId, fields: Seq<(Option<NameWithRange>, ExprId)> },
    Import(FileName),
}

/// The names of the first components of `fields` have keys below `count`.
pub open spec fn field_names_below(
    fields: Seq<(Option<NameWithRange>, ExprId)>,
    count: nat,
) -> bool {
    forall|k: int|
        0 <= k < fields.len() ==> ((#[trigger] fields[k]).0 matches Some(name) ==> (
        name.name.0.0 as nat) < count)
}

impl ExprView {
    /// Every name and every file name that the expression holds has a
    /// key below `count`: with an interner of `count` strings, each of
    /// them looks up to a string.
    pub open spec fn names_below(self, count: nat) -> bool {
        match self {
            ExprView::SelfGlobal(name) => (name.name.0.0 as nat) < count,
            ExprView::Path { field, .. } => (field.name.0.0 as nat) < count,
            ExprView::StructDecl { fields, .. } => field_names_below(fields, count),
            ExprView::StructLiteral { fields, .. } => field_names_below(fields, count),
            ExprView::Import(file) => (file.0.0 as nat) < count,
            _ => true,
        }
    }

    /// The unique identifier of a distinct type or of a struct
    /// declaration.
    pub open spec fn uid(self) -> Option<u32> {
        match self {
            ExprView::Distinct { uid, .. } => Some(uid),
            ExprView::StructDecl { uid, .. } => Some(uid),
            _ => None,
        }
    }

    /// A literal, or the expression of a missing piece.
    pub open spec fn is_literal(self) -> bool {
        self is Missing || self is IntLiteral || self is FloatLiteral || self is BoolLiteral
            || self is StringLiteral || self is CharLiteral
    }

    /// A name of something, alone or after a path.
    pub open spec fn is_reference(self) -> bool {
        self is Local || self is Param || self is SelfGlobal || self is PrimitiveTy
            || self is Import || self is Path
    }

    /// An operator and its operands.
    pub open spec fn is_operation(self) -> bool {
        self is Index || self is Cast || self is Ref || self is Deref || self is Binary
            || self is Unary
    }

    /// A word before one expression.
    pub open spec fn is_wrapper(self) -> bool {
        self is Comptime || self is Distinct
    }

    /// A condition and what depends on it.
    pub open spec fn is_branch(self) -> bool {
        self is If || self is While
    }
}

impl View for Expr {
    type V = ExprView;

    open spec fn view(&self) -> ExprView {
        match *self {
            Expr::Missing => ExprView::Missing,
            Expr::IntLiteral(n) => ExprView::IntLiteral(n),
            Expr::FloatLiteral(value) => ExprView::FloatLiteral(value@),
            Expr::BoolLiteral(b) => ExprView::BoolLiteral(b),
            Expr::StringLiteral(text) => ExprView::StringLiteral(text@),
            Expr::CharLiteral(c) => ExprView::CharLiteral(c),
            Expr::Cast { expr, ty } => ExprView::Cast { expr, ty },
            Expr::Ref { mutable, expr } => ExprView::Ref { mutable, expr },
            Expr::Deref { pointer } => ExprView::Deref { pointer },
            Expr::Binary { lhs, rhs, op } => ExprView::Binary { lhs, rhs, op },
            Expr::Unary { expr, op } => ExprView::Unary { expr, op },
            Expr::Array { size, items, ty } => ExprView::Array {
                size,
                items: match items {
                    Some(items) => Some(items@),
                    None => None,
                },
                ty,
            },
            Expr::Index { array, index } => ExprView::Index { array, index },
            Expr::Block { stmts, tail_expr } => ExprView::Block { stmts: stmts@, tail_expr },
            Expr::If { condition, body, else_branch } => ExprView::If {
                condition,
                body,
                else_branch,
            },
            Expr::While { condition, body } => ExprView::While { condition, body },
            Expr::Local(id) => ExprView::Local(id),
            Expr::SelfGlobal(name) => ExprView::SelfGlobal(name),
            Expr::Param { idx, range } => ExprView::Param { idx, range },
            Expr::Path { previous, field } => ExprView::Path { previous, field },
            Expr::Call { callee, args } => ExprView::Call { callee, args: args@ },
            Expr::Lambda(id) => ExprView::Lambda(id),
            Expr::Comptime(id) => ExprView::Comptime(id),
            Expr::PrimitiveTy(ty) => ExprView::PrimitiveTy(ty),
            Expr::Distinct { uid, ty } => ExprView::Distinct { uid, ty },
            Expr::StructDecl { uid, fields } => ExprView::StructDecl { uid, fields: fields@ },
            Expr::StructLiteral { ty, fields } => ExprView::StructLiteral { ty, fields: fields@ },
            Expr::Import(file) => ExprView::Import(file),
        }
    }
}

#[derive(Debug, Clone, Copy, PartialEq, Eq, Structural)]
pub struct Param {
    pub name: Option<Name>,
    pub ty: ExprId,
}

#[derive(Debug, Clone)]
pub struct Lambda {
    pub params: Vec<Param>,
    pub params_range: TextRange,
    pub return_ty: Option<ExprId>,
    pub body: ExprId,
    pub is_extern: bool,
}

/// A lambda, with a sequence for its parameters.
pub struct LambdaView {
    pub params: Seq<Param>,
    pub params_range: TextRange,
    pub return_ty: Option<ExprId>,
    pub body: ExprId,
    pub is_extern: bool,
}

impl LambdaView {
    /// The names of the parameters have keys below `count`.
    pub open spec fn names_below(self, count: nat) -> bool {
        forall|k: int|
            0 <= k < self.params.len() ==> ((#[trigger] self.params[k]).name matches Some(name)
                ==> (name.0.0 as nat) < count)
    }
}

impl View for Lambda {
    type V = LambdaView;

    open spec fn view(&self) -> LambdaView {
        LambdaView {
            params: self.params@,
            params_range: self.params_range,
            return_ty: self.return_ty,
            body: self.body,
            is_extern: self.is_extern,
        }
    }
}

#[derive(Debug, Clone, Copy, PartialEq, Eq, Structural)]
pub struct Comptime {
    pub body: ExprId,
}

#[derive(Debug, Clone, Copy, PartialEq, Eq, Structural)]
pub enum Stmt {
    Expr(ExprId),
    LocalDef(LocalDefId),
    Assign(AssignId),
}

#[derive(Debug, Clone, Copy, PartialEq, Eq, Structural)]
pub struct LocalDef {
    pub mutable: bool,
    pub ty: Option<ExprId>,
    pub value: ExprId,
    pub range: TextRange,
}

#[derive(Debug, Clone, Copy, PartialEq, Eq, Structural)]
pub struct Assign {
    pub source: ExprId,
    pub value: ExprId,
    pub range: TextRange,
}

#[derive(Debug, Clone, PartialEq)]
pub struct LoweringDiagnostic {
    pub kind: LoweringDiagnosticKind,
    pub range: TextRange,
}

#[derive(Debug, Clone, PartialEq)]
pub enum LoweringDiagnosticKind {
    OutOfRangeIntLiteral,
    UndefinedRef { name: Key },
    NonGlobalExtern,
    ArraySizeNotConst,
    ArraySizeMismatch { found: u32, expected: u32 },
    InvalidEscape,
    TooManyCharsInCharLiteral,
    EmptyCharLiteral,
    NonU8CharLiteral,
    ImportMustEndInDotCapy,
    ImportDoesNotExist { file: String },
}

/// The kind of a lowering diagnostic, with a sequence for its text.
pub enum DiagnosticKindView {
    OutOfRangeIntLiteral,
    UndefinedRef { name: Key },
    NonGlobalExtern,
    ArraySizeNotConst,
    ArraySizeMismatch { found: u32, expected: u32 },
    InvalidEscape,
    TooManyCharsInCharLiteral,
    EmptyCharLiteral,
    NonU8CharLiteral,
    ImportMustEndInDotCapy,
    ImportDoesNotExist { file: Seq<char> },
}

impl View for LoweringDiagnosticKind {
    type V = DiagnosticKindView;

    open spec fn view(&self) -> DiagnosticKindView {
        match *self {
            LoweringDiagnosticKind::OutOfRangeIntLiteral => DiagnosticKindView::OutOfRangeIntLiteral,
            LoweringDiagnosticKind::UndefinedRef { name } => DiagnosticKindView::UndefinedRef {
                name,
            },
            LoweringDiagnosticKind::NonGlobalExtern => DiagnosticKindView::NonGlobalExtern,
            LoweringDiagnosticKind::ArraySizeNotConst => DiagnosticKindView::ArraySizeNotConst,
            LoweringDiagnosticKind::ArraySizeMismatch {
                found,
                expected,
            } => DiagnosticKindView::ArraySizeMismatch { found, expected },
            LoweringDiagnosticKind::InvalidEscape => DiagnosticKindView::InvalidEscape,
            LoweringDiagnosticKind::TooManyCharsInCharLiteral => DiagnosticKindView::TooManyCharsInCharLiteral,
            LoweringDiagnosticKind::EmptyCharLiteral => DiagnosticKindView::EmptyCharLiteral,
            LoweringDiagnosticKind::NonU8CharLiteral => DiagnosticKindView::NonU8CharLiteral,
            LoweringDiagnosticKind::ImportMustEndInDotCapy => DiagnosticKindView::ImportMustEndInDotCapy,
            LoweringDiagnosticKind::ImportDoesNotExist { file } => DiagnosticKindView::ImportDoesNotExist {
                file: file@,
            },
        }
    }
}

/// A lowering diagnostic, with a sequence for its text.
pub struct DiagnosticView {
    pub kind: DiagnosticKindView,
    pub range: TextRange,
}

impl DiagnosticView {
    /// The name that the diagnostic holds, if it holds one, has a key
    /// below `count`.
    pub open spec fn names_below(self, count: nat) -> bool {
        self.kind matches DiagnosticKindView::UndefinedRef { name } ==> (name.0 as nat) < count
    }
}

impl View for LoweringDiagnostic {
    type V = DiagnosticView;

    open spec fn view(&self) -> DiagnosticView {
        DiagnosticView { kind: self.kind@, range: self.range }
    }
}

/// The way to a global: in the file itself, or in another file.
#[derive(Debug, Clone, Copy, PartialEq, Eq, Structural)]
pub enum Path {
    ThisModule(Name),
    OtherModule(Fqn),
}

/// What a name stands for.
#[derive(Debug, Clone, Copy, PartialEq, Eq, Structural)]
pub enum Symbol {
    Local(LocalDefId),
    /// A parameter, by the range of its declaration.
    Param(TextRange),
    Global(Path),
    PrimitiveTy(PrimitiveTy),
    Function(Path),
    Module(Name),
    Unknown,
}

} // verus!
