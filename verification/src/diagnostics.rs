//! Diagnostics of every pass: where each one points, how severe it is,
//! and what it says.

use crate::hir::{DiagnosticView, LoweringDiagnostic, LoweringDiagnosticKind};
use crate::ops::BinaryOp;
use crate::ty::{arena_types, ty_text, ResolvedTy};
use la_arena::Arena;
use crate::interner::{name_text, Interner, Key};
use crate::show::{decimal_text, push_decimal};
use crate::text_range::TextRange;
use crate::token::{format_kind, kind_text, TokenKind};
use vstd::prelude::*;
use vstd::string::StringExecFns;

verus! {

/// What the parser wanted at the place of a syntax error.
#[derive(Debug, Clone, PartialEq)]
pub enum ExpectedSyntax {
    /// A construct, by its name.
    Named(String),
    /// A token of one kind.
    Unnamed(TokenKind),
}

#[derive(Debug, Clone, Copy, PartialEq, Eq, Structural)]
pub enum SyntaxErrorKind {
    /// Something is missing at `offset`.
    Missing { offset: u32 },
    /// Something else was found at `range`.
    Unexpected { found: TokenKind, range: TextRange },
}

#[derive(Debug, Clone, PartialEq)]
pub struct SyntaxError {
    pub expected_syntax: ExpectedSyntax,
    pub kind: SyntaxErrorKind,
}

#[derive(Debug, Clone, Copy, PartialEq, Eq, Structural)]
pub enum ValidationDiagnosticKind {
    UnneededVoid,
}

#[derive(Debug, Clone, Copy, PartialEq, Eq, Structural)]
pub struct ValidationDiagnostic {
    pub kind: ValidationDiagnosticKind,
    pub range: TextRange,
}

/// What is wrong with an expression that should denote a type.
#[derive(Debug, Clone, Copy, PartialEq, Eq, Structural)]
pub enum TyParseError {
    ArrayMissingSize,
    ArraySizeNotConst(TextRange),
    ArraySizeOutOfBounds(TextRange),
    ArrayHasBody(TextRange),
    NotATy,
    NonGlobalTy,
}

#[derive(Debug, Clone, Copy, PartialEq, Eq, Structural)]
pub enum IndexingDiagnosticKind {
    NonBindingAtRoot,
    AlreadyDefined { name: Key },
    MissingTy { name: Key },
    FunctionTy,
    TyParseError(TyParseError),
}

#[derive(Debug, Clone, Copy, PartialEq, Eq, Structural)]
pub struct IndexingDiagnostic {
    pub kind: IndexingDiagnosticKind,
    pub range: TextRange,
}

#[derive(Debug, PartialEq, Eq, Clone, Copy, Structural)]
pub enum Severity {
    Warning,
    Error,
}

/// The number of digits that `n` is written with in the base `base`.
pub open spec fn digit_count(n: nat, base: nat) -> nat
    decreases n,
{
    if n < base || base < 2 {
        1
    } else {
        proof {
            assert(n / base < n) by (nonlinear_arith)
                requires
                    base >= 2,
                    n >= base,
            ;
        }
        1 + digit_count(n / base, base)
    }
}

/// `base` to the power `exp`.
pub open spec fn power_of(base: nat, exp: nat) -> nat
    decreases exp,
{
    if exp == 0 {
        1
    } else {
        base * power_of(base, (exp - 1) as nat)
    }
}

/// A number between two powers of the base in a row has as many digits
/// as the exponent of the greater.
proof fn lemma_digit_count(n: nat, base: nat, count: nat)
    requires
        base >= 2,
        count >= 1,
        n < power_of(base, count),
        count >= 2 ==> power_of(base, (count - 1) as nat) <= n,
    ensures
        digit_count(n, base) == count,
    decreases count,
{
    assert(power_of(base, 0) == 1);
    assert(power_of(base, 1) == base * power_of(base, 0));
    if count >= 2 {
        let low = power_of(base, (count - 2) as nat);
        let high = power_of(base, (count - 1) as nat);
        assert(high == base * low);
        assert(power_of(base, count) == base * high);
        assert(low >= 1) by {
            lemma_power_positive(base, (count - 2) as nat);
        }
        assert(n >= base) by (nonlinear_arith)
            requires
                n >= base * low,
                low >= 1,
                base >= 2,
        ;
        assert(low <= n / base < high) by (nonlinear_arith)
            requires
                base * low <= n,
                n < base * high,
                base >= 2,
        ;
        lemma_digit_count(n / base, base, (count - 1) as nat);
    }
}

proof fn lemma_power_positive(base: nat, exp: nat)
    requires
        base >= 2,
    ensures
        power_of(base, exp) > exp,
    decreases exp,
{
    if exp > 0 {
        lemma_power_positive(base, (exp - 1) as nat);
        assert(base * power_of(base, (exp - 1) as nat) >= 2 * power_of(base, (exp - 1) as nat))
            by (nonlinear_arith)
            requires
                base >= 2,
        ;
    }
}

/// The number of digits in a number: 42 has 2 in base 10.
pub fn count_digits(n: u32, base: u32) -> (count: usize)
    requires
        base >= 2,
    ensures
        count == digit_count(n as nat, base as nat),
{
    let mut power: u32 = base;
    let mut count: usize = 1;
    assert(power_of(base as nat, 0) == 1);
    assert(power_of(base as nat, 1) == base * power_of(base as nat, 0));
    while n >= power
        invariant_except_break
            power == power_of(base as nat, count as nat),
            count < power,
        invariant
            base >= 2,
            count >= 1,
            count >= 2 ==> power_of(base as nat, (count - 1) as nat) <= n,
        ensures
            n < power_of(base as nat, count as nat),
            count >= 2 ==> power_of(base as nat, (count - 1) as nat) <= n,
            count >= 1,
        decreases 0x1_0000_0000 - power,
    {
        assert(power * base >= 2 * power) by (nonlinear_arith)
            requires
                base >= 2,
        ;
        count = count + 1;
        assert(power_of(base as nat, count as nat) == base * power_of(
            base as nat,
            (count - 1) as nat,
        ));
        assert(power_of(base as nat, count as nat) == power * base) by (nonlinear_arith)
            requires
                power_of(base as nat, count as nat) == base * power_of(
                    base as nat,
                    (count - 1) as nat,
                ),
                power == power_of(base as nat, (count - 1) as nat),
        ;
        match power.checked_mul(base) {
            Some(new_power) => {
                power = new_power;
            },
            None => {
                break ;
            },
        }
    }
    proof {
        lemma_digit_count(n as nat, base as nat, count as nat);
    }
    count
}

/// What the parser wanted, as a message names it.
pub open spec fn expected_text(expected: ExpectedSyntax) -> Seq<char> {
    match expected {
        ExpectedSyntax::Named(name) => name@,
        ExpectedSyntax::Unnamed(kind) => kind_text(kind),
    }
}

/// The message of a syntax error: what is missing, or what was expected
/// and what was found in its place.
pub open spec fn syntax_error_text(e: SyntaxError) -> Seq<char> {
    match e.kind {
        SyntaxErrorKind::Missing { .. } => "missing "@ + expected_text(e.expected_syntax),
        SyntaxErrorKind::Unexpected { found, .. } => "expected "@ + expected_text(
            e.expected_syntax,
        ) + " but found "@ + kind_text(found),
    }
}

/// The message of a syntax error.
pub fn syntax_error_message(e: &SyntaxError) -> (message: String)
    ensures
        message@ == syntax_error_text(*e),
{
    let mut message = String::new();
    match e.kind {
        SyntaxErrorKind::Missing { .. } => {
            message.append("missing ");
            write_expected_syntax(&mut message, &e.expected_syntax);
        },
        SyntaxErrorKind::Unexpected { found, .. } => {
            message.append("expected ");
            write_expected_syntax(&mut message, &e.expected_syntax);
            message.append(" but found ");
            message.append(format_kind(found));
        },
    }
    assert(message@ =~= syntax_error_text(*e));
    message
}

fn write_expected_syntax(buf: &mut String, expected: &ExpectedSyntax)
    ensures
        final(buf)@ == old(buf)@ + expected_text(*expected),
{
    match expected {
        ExpectedSyntax::Named(name) => {
            buf.append(name.as_str());
        },
        ExpectedSyntax::Unnamed(kind) => {
            buf.append(format_kind(*kind));
        },
    }
}

pub open spec fn validation_diagnostic_text(d: ValidationDiagnostic) -> Seq<char> {
    match d.kind {
        ValidationDiagnosticKind::UnneededVoid => "unneeded `void`"@,
    }
}

/// The message of a validation diagnostic.
pub fn validation_diagnostic_message(d: &ValidationDiagnostic) -> (message: String)
    ensures
        message@ == validation_diagnostic_text(*d),
{
    match d.kind {
        ValidationDiagnosticKind::UnneededVoid => String::from_str("unneeded `void`"),
    }
}

pub open spec fn ty_parse_error_text(d: TyParseError) -> Seq<char> {
    match d {
        TyParseError::ArrayMissingSize => "array type is missing an explicit size"@,
        TyParseError::ArraySizeNotConst(_) => "array type size must be a constant integer"@,
        TyParseError::ArraySizeOutOfBounds(_) => "integer literal out of range"@,
        TyParseError::ArrayHasBody(_) => "array type cannot have a body"@,
        TyParseError::NotATy => "expected a type"@,
        TyParseError::NonGlobalTy => "tried to use a non-global variable as a type"@,
    }
}

/// The message for an expression that should denote a type and does not.
pub fn lower_ty_parse_error(d: &TyParseError) -> (message: String)
    ensures
        message@ == ty_parse_error_text(*d),
{
    match d {
        TyParseError::ArrayMissingSize => String::from_str(
            "array type is missing an explicit size",
        ),
        TyParseError::ArraySizeNotConst(_) => String::from_str(
            "array type size must be a constant integer",
        ),
        TyParseError::ArraySizeOutOfBounds(_) => String::from_str("integer literal out of range"),
        TyParseError::ArrayHasBody(_) => String::from_str("array type cannot have a body"),
        TyParseError::NotATy => String::from_str("expected a type"),
        TyParseError::NonGlobalTy => String::from_str(
            "tried to use a non-global variable as a type",
        ),
    }
}

pub open spec fn indexing_diagnostic_text(d: IndexingDiagnostic, names: Seq<Seq<char>>) -> Seq<
    char,
> {
    match d.kind {
        IndexingDiagnosticKind::NonBindingAtRoot => "globals must be binding `::` and not variable `:=`"@,
        IndexingDiagnosticKind::AlreadyDefined { name } => "name `"@ + name_text(names, name)
            + "` already defined"@,
        IndexingDiagnosticKind::MissingTy { name } => "global `"@ + name_text(names, name)
            + "` must have a type"@,
        IndexingDiagnosticKind::FunctionTy => "lambdas can not be typed"@,
        IndexingDiagnosticKind::TyParseError(parse_error) => ty_parse_error_text(parse_error),
    }
}

/// Appends the text of `key`; `<unknown>` for a key that the interner
/// does not have.
fn write_key(buf: &mut String, interner: &Interner, key: Key)
    ensures
        final(buf)@ == old(buf)@ + name_text(interner@, key),
{
    if (key.0 as usize) < interner.len() {
        buf.append(interner.lookup(key));
    } else {
        buf.append("<unknown>");
    }
}

/// The message of an indexing diagnostic.
pub fn indexing_diagnostic_message(d: &IndexingDiagnostic, interner: &Interner) -> (message: String)
    ensures
        message@ == indexing_diagnostic_text(*d, interner@),
{
    let mut message = String::new();
    match d.kind {
        IndexingDiagnosticKind::NonBindingAtRoot => {
            message.append("globals must be binding `::` and not variable `:=`");
        },
        IndexingDiagnosticKind::AlreadyDefined { name } => {
            message.append("name `");
            write_key(&mut message, interner, name);
            message.append("` already defined");
        },
        IndexingDiagnosticKind::MissingTy { name } => {
            message.append("global `");
            write_key(&mut message, interner, name);
            message.append("` must have a type");
        },
        IndexingDiagnosticKind::FunctionTy => {
            message.append("lambdas can not be typed");
        },
        IndexingDiagnosticKind::TyParseError(parse_error) => {
            let text: String = lower_ty_parse_error(&parse_error);
            message.append(text.as_str());
        },
    }
    assert(message@ =~= indexing_diagnostic_text(*d, interner@));
    message
}

pub open spec fn lowering_diagnostic_text(
    d: crate::hir::DiagnosticView,
    names: Seq<Seq<char>>,
) -> Seq<char> {
    match d.kind {
        crate::hir::DiagnosticKindView::OutOfRangeIntLiteral => "integer literal out of range"@,
        crate::hir::DiagnosticKindView::UndefinedRef { name } => "undefined reference to `"@
            + name_text(names, name) + "`"@,
        crate::hir::DiagnosticKindView::NonGlobalExtern => "non-global functions cannot be extern"@,
        crate::hir::DiagnosticKindView::ArraySizeNotConst => "array size must be a constant integer"@,
        crate::hir::DiagnosticKindView::ArraySizeMismatch {
            found,
            expected,
        } => "expected `"@ + decimal_text(expected as nat) + "` elements in the array but found `"@
            + decimal_text(found as nat) + "`"@,
        crate::hir::DiagnosticKindView::InvalidEscape => "invalid escape"@,
        crate::hir::DiagnosticKindView::TooManyCharsInCharLiteral => "character literals can only contain one character"@,
        crate::hir::DiagnosticKindView::EmptyCharLiteral => "character literals cannot be empty"@,
        crate::hir::DiagnosticKindView::NonU8CharLiteral => "character literals cannot contain more than one byte"@,
        crate::hir::DiagnosticKindView::ImportMustEndInDotCapy => "capy files must end in `.capy`"@,
        crate::hir::DiagnosticKindView::ImportDoesNotExist { file } => "`"@ + file
            + "` couldn't be found"@,
    }
}

/// The message of a lowering diagnostic.
pub fn lowering_diagnostic_message(d: &LoweringDiagnostic, interner: &Interner) -> (message: String)
    ensures
        message@ == lowering_diagnostic_text(d@, interner@),
{
    let mut message = String::new();
    match &d.kind {
        LoweringDiagnosticKind::OutOfRangeIntLiteral => {
            message.append("integer literal out of range");
        },
        LoweringDiagnosticKind::UndefinedRef { name } => {
            message.append("undefined reference to `");
            write_key(&mut message, interner, *name);
            message.append("`");
        },
        LoweringDiagnosticKind::NonGlobalExtern => {
            message.append("non-global functions cannot be extern");
        },
        LoweringDiagnosticKind::ArraySizeNotConst => {
            message.append("array size must be a constant integer");
        },
        LoweringDiagnosticKind::ArraySizeMismatch { found, expected } => {
            message.append("expected `");
            push_decimal(&mut message, *expected as u64);
            message.append("` elements in the array but found `");
            push_decimal(&mut message, *found as u64);
            message.append("`");
        },
        LoweringDiagnosticKind::InvalidEscape => {
            message.append("invalid escape");
        },
        LoweringDiagnosticKind::TooManyCharsInCharLiteral => {
            message.append("character literals can only contain one character");
        },
        LoweringDiagnosticKind::EmptyCharLiteral => {
            message.append("character literals cannot be empty");
        },
        LoweringDiagnosticKind::NonU8CharLiteral => {
            message.append("character literals cannot contain more than one byte");
        },
        LoweringDiagnosticKind::ImportMustEndInDotCapy => {
            message.append("capy files must end in `.capy`");
        },
        LoweringDiagnosticKind::ImportDoesNotExist { file } => {
            message.append("`");
            message.append(file.as_str());
            message.append("` couldn't be found");
        },
    }
    assert(message@ =~= lowering_diagnostic_text(d@, interner@));
    message
}

/// What the type checker found wrong.
#[derive(Debug, Clone, Copy, PartialEq, Eq, Structural)]
pub enum TyDiagnosticKind {
    Mismatch { expected: ResolvedTy, found: ResolvedTy },
    Uncastable { from: ResolvedTy, to: ResolvedTy },
    OpMismatch { op: BinaryOp, first: ResolvedTy, second: ResolvedTy },
    IfMismatch { found: ResolvedTy, expected: ResolvedTy },
    IndexMismatch { found: ResolvedTy },
    DerefMismatch { found: ResolvedTy },
    MissingElse { expected: ResolvedTy },
    Undefined { name: Key },
}

#[derive(Debug, Clone, Copy, PartialEq, Eq, Structural)]
pub struct TyDiagnostic {
    pub kind: TyDiagnosticKind,
    pub range: TextRange,
}

/// What a binary operator does to its second operand, in a message.
pub open spec fn operation_text(op: BinaryOp) -> Seq<char> {
    match op {
        BinaryOp::Add => "added to"@,
        BinaryOp::Sub => "subtracted by"@,
        BinaryOp::Mul => "multiplied by"@,
        BinaryOp::Div => "divided by"@,
        BinaryOp::Mod => "reduced modulo"@,
        _ => "compared to"@,
    }
}

fn operation_name(op: BinaryOp) -> (text: &'static str)
    ensures
        text@ == operation_text(op),
{
    match op {
        BinaryOp::Add => "added to",
        BinaryOp::Sub => "subtracted by",
        BinaryOp::Mul => "multiplied by",
        BinaryOp::Div => "divided by",
        BinaryOp::Mod => "reduced modulo",
        BinaryOp::Lt
        | BinaryOp::Gt
        | BinaryOp::Le
        | BinaryOp::Ge
        | BinaryOp::Eq
        | BinaryOp::Ne
        | BinaryOp::And
        | BinaryOp::Or => "compared to",
    }
}

/// The message of a type diagnostic. The types are written as
/// `ty_text` has them.
pub open spec fn ty_diagnostic_text(
    d: TyDiagnostic,
    types: Seq<ResolvedTy>,
    names: Seq<Seq<char>>,
) -> Seq<char> {
    match d.kind {
        TyDiagnosticKind::Mismatch { expected, found } => "expected `"@ + ty_text(
            types,
            names,
            expected,
        ) + "` but found `"@ + ty_text(types, names, found) + "`"@,
        TyDiagnosticKind::Uncastable { from, to } => "cannot cast `"@ + ty_text(types, names, from)
            + "` to `"@ + ty_text(types, names, to) + "`"@,
        TyDiagnosticKind::OpMismatch { op, first, second } => "`"@ + ty_text(types, names, first)
            + "` cannot be "@ + operation_text(op) + " `"@ + ty_text(types, names, second) + "`"@,
        TyDiagnosticKind::IfMismatch {
            found,
            expected,
        } => "`if` and `else` have different types, expected `"@ + ty_text(types, names, found)
            + "` but found `"@ + ty_text(types, names, expected) + "`"@,
        TyDiagnosticKind::IndexMismatch { found } => "tried indexing `[]` a non-array, `"@
            + ty_text(types, names, found) + "`"@,
        TyDiagnosticKind::DerefMismatch { found } => "tried dereferencing `^` a non-pointer, `"@
            + ty_text(types, names, found) + "`"@,
        TyDiagnosticKind::MissingElse { expected } => "this `if` is missing an `else` with type `"@
            + ty_text(types, names, expected) + "`"@,
        TyDiagnosticKind::Undefined { name } => "undefined type `"@ + name_text(names, name)
            + "`"@,
    }
}

/// Appends `ty` as a message writes it.
fn write_ty(
    buf: &mut String,
    ty: ResolvedTy,
    resolved_arena: &Arena<ResolvedTy>,
    interner: &Interner,
)
    ensures
        final(buf)@ == old(buf)@ + ty_text(arena_types(*resolved_arena), interner@, ty),
{
    let text: String = ty.display(resolved_arena, interner);
    buf.append(text.as_str());
}

/// The message of a type diagnostic.
pub fn ty_diagnostic_message(
    d: &TyDiagnostic,
    resolved_arena: &Arena<ResolvedTy>,
    interner: &Interner,
) -> (message: String)
    ensures
        message@ == ty_diagnostic_text(*d, arena_types(*resolved_arena), interner@),
{
    let mut message = String::new();
    let ghost text = ty_diagnostic_text(*d, arena_types(*resolved_arena), interner@);
    match d.kind {
        TyDiagnosticKind::Mismatch { expected, found } => {
            message.append("expected `");
            write_ty(&mut message, expected, resolved_arena, interner);
            message.append("` but found `");
            write_ty(&mut message, found, resolved_arena, interner);
            message.append("`");
            assert(message@ =~= text);
        },
        TyDiagnosticKind::Uncastable { from, to } => {
            message.append("cannot cast `");
            write_ty(&mut message, from, resolved_arena, interner);
            message.append("` to `");
            write_ty(&mut message, to, resolved_arena, interner);
            message.append("`");
            assert(message@ =~= text);
        },
        TyDiagnosticKind::OpMismatch { op, first, second } => {
            message.append("`");
            write_ty(&mut message, first, resolved_arena, interner);
            message.append("` cannot be ");
            message.append(operation_name(op));
            message.append(" `");
            write_ty(&mut message, second, resolved_arena, interner);
            message.append("`");
            assert(message@ =~= text);
        },
        TyDiagnosticKind::IfMismatch { found, expected } => {
            message.append("`if` and `else` have different types, expected `");
            write_ty(&mut message, found, resolved_arena, interner);
            message.append("` but found `");
            write_ty(&mut message, expected, resolved_arena, interner);
            message.append("`");
            assert(message@ =~= text);
        },
        TyDiagnosticKind::IndexMismatch { found } => {
            message.append("tried indexing `[]` a non-array, `");
            write_ty(&mut message, found, resolved_arena, interner);
            message.append("`");
            assert(message@ =~= text);
        },
        TyDiagnosticKind::DerefMismatch { found } => {
            message.append("tried dereferencing `^` a non-pointer, `");
            write_ty(&mut message, found, resolved_arena, interner);
            message.append("`");
            assert(message@ =~= text);
        },
        TyDiagnosticKind::MissingElse { expected } => {
            message.append("this `if` is missing an `else` with type `");
            write_ty(&mut message, expected, resolved_arena, interner);
            message.append("`");
            assert(message@ =~= text);
        },
        TyDiagnosticKind::Undefined { name } => {
            message.append("undefined type `");
            write_key(&mut message, interner, name);
            message.append("`");
            assert(message@ =~= text);
        },
    }
    message
}

enum Repr {
    Syntax(SyntaxError),
    Validation(ValidationDiagnostic),
    Indexing(IndexingDiagnostic),
    Lowering(LoweringDiagnostic),
    Ty(TyDiagnostic),
}

/// A diagnostic of any pass.
pub struct Diagnostic(Repr);

/// A diagnostic of any pass, as mathematics sees it.
pub enum DiagnosticOrigin {
    Syntax(SyntaxError),
    Validation(ValidationDiagnostic),
    Indexing(IndexingDiagnostic),
    Lowering(DiagnosticView),
    Ty(TyDiagnostic),
}

impl View for Diagnostic {
    type V = DiagnosticOrigin;

    closed spec fn view(&self) -> DiagnosticOrigin {
        match self.0 {
            Repr::Syntax(e) => DiagnosticOrigin::Syntax(e),
            Repr::Validation(d) => DiagnosticOrigin::Validation(d),
            Repr::Indexing(d) => DiagnosticOrigin::Indexing(d),
            Repr::Lowering(d) => DiagnosticOrigin::Lowering(d@),
            Repr::Ty(d) => DiagnosticOrigin::Ty(d),
        }
    }
}

impl DiagnosticOrigin {
    /// Where the diagnostic points. A syntax error about something
    /// missing points at the one byte at its offset.
    pub open spec fn range(self) -> TextRange {
        match self {
            DiagnosticOrigin::Syntax(e) => match e.kind {
                SyntaxErrorKind::Missing { offset } => TextRange {
                    start: offset,
                    end: (offset + 1) as u32,
                },
                SyntaxErrorKind::Unexpected { range, .. } => range,
            },
            DiagnosticOrigin::Validation(d) => d.range,
            DiagnosticOrigin::Indexing(d) => d.range,
            DiagnosticOrigin::Lowering(d) => d.range,
            DiagnosticOrigin::Ty(d) => d.range,
        }
    }

    /// A validation diagnostic is a warning; every other one an error.
    pub open spec fn severity(self) -> Severity {
        match self {
            DiagnosticOrigin::Validation(_) => Severity::Warning,
            _ => Severity::Error,
        }
    }

    pub open spec fn message(self, types: Seq<ResolvedTy>, names: Seq<Seq<char>>) -> Seq<char> {
        match self {
            DiagnosticOrigin::Syntax(e) => syntax_error_text(e),
            DiagnosticOrigin::Validation(d) => validation_diagnostic_text(d),
            DiagnosticOrigin::Indexing(d) => indexing_diagnostic_text(d, names),
            DiagnosticOrigin::Lowering(d) => lowering_diagnostic_text(d, names),
            DiagnosticOrigin::Ty(d) => ty_diagnostic_text(d, types, names),
        }
    }
}

impl Diagnostic {
    pub fn from_syntax(error: SyntaxError) -> (diagnostic: Diagnostic)
        ensures
            diagnostic@ == DiagnosticOrigin::Syntax(error),
    {
        Diagnostic(Repr::Syntax(error))
    }

    pub fn from_validation(diagnostic: ValidationDiagnostic) -> (wrapped: Diagnostic)
        ensures
            wrapped@ == DiagnosticOrigin::Validation(diagnostic),
    {
        Diagnostic(Repr::Validation(diagnostic))
    }

    pub fn from_indexing(diagnostic: IndexingDiagnostic) -> (wrapped: Diagnostic)
        ensures
            wrapped@ == DiagnosticOrigin::Indexing(diagnostic),
    {
        Diagnostic(Repr::Indexing(diagnostic))
    }

    pub fn from_lowering(diagnostic: LoweringDiagnostic) -> (wrapped: Diagnostic)
        ensures
            wrapped@ == DiagnosticOrigin::Lowering(diagnostic@),
    {
        Diagnostic(Repr::Lowering(diagnostic))
    }

    pub fn from_ty(diagnostic: TyDiagnostic) -> (wrapped: Diagnostic)
        ensures
            wrapped@ == DiagnosticOrigin::Ty(diagnostic),
    {
        Diagnostic(Repr::Ty(diagnostic))
    }

    /// Where the diagnostic points.
    pub fn range(&self) -> (range: TextRange)
        requires
            self@ matches DiagnosticOrigin::Syntax(e) ==> (e.kind matches SyntaxErrorKind::Missing {
                offset,
            } ==> offset < u32::MAX),
        ensures
            range == self@.range(),
    {
        match &self.0 {
            Repr::Syntax(e) => match e.kind {
                SyntaxErrorKind::Missing { offset } => TextRange::new(offset, offset + 1),
                SyntaxErrorKind::Unexpected { range, .. } => range,
            },
            Repr::Validation(d) => d.range,
            Repr::Indexing(d) => d.range,
            Repr::Lowering(d) => d.range,
            Repr::Ty(d) => d.range,
        }
    }

    pub fn severity(&self) -> (severity: Severity)
        ensures
            severity == self@.severity(),
    {
        match &self.0 {
            Repr::Syntax(_) => Severity::Error,
            Repr::Validation(_) => Severity::Warning,
            Repr::Indexing(_) => Severity::Error,
            Repr::Lowering(_) => Severity::Error,
            Repr::Ty(_) => Severity::Error,
        }
    }

    pub fn message(&self, resolved_arena: &Arena<ResolvedTy>, interner: &Interner) -> (message:
        String)
        ensures
            message@ == self@.message(arena_types(*resolved_arena), interner@),
    {
        match &self.0 {
            Repr::Syntax(e) => syntax_error_message(e),
            Repr::Validation(d) => validation_diagnostic_message(d),
            Repr::Indexing(d) => indexing_diagnostic_message(d, interner),
            Repr::Lowering(d) => lowering_diagnostic_message(d, interner),
            Repr::Ty(d) => ty_diagnostic_message(d, resolved_arena, interner),
        }
    }
}

} // verus!
