use capy::diagnostics::{
    count_digits, indexing_diagnostic_message, lower_ty_parse_error, lowering_diagnostic_message,
    syntax_error_message, ty_diagnostic_message, validation_diagnostic_message, Diagnostic,
    ExpectedSyntax, IndexingDiagnostic, IndexingDiagnosticKind, Severity, SyntaxError,
    SyntaxErrorKind, TyDiagnostic, TyDiagnosticKind, TyParseError, ValidationDiagnostic,
    ValidationDiagnosticKind,
};
use capy::hir::{LoweringDiagnostic, LoweringDiagnosticKind};
use capy::interner::{Interner, Key};
use capy::line_index::{lines_of, ColNr, LineIndex, LineNr};
use capy::ops::BinaryOp;
use capy::snippet::input_snippet;
use capy::text_range::TextRange;
use capy::token::{format_kind, TokenKind};
use capy::ty::{ResolvedTy, TyId};
use la_arena::Arena;

#[test]
fn digits_of_numbers() {
    assert_eq!(count_digits(0, 10), 1);
    assert_eq!(count_digits(9, 10), 1);
    assert_eq!(count_digits(10, 10), 2);
    assert_eq!(count_digits(42, 10), 2);
    assert_eq!(count_digits(99, 10), 2);
    assert_eq!(count_digits(100, 10), 3);
    assert_eq!(count_digits(999_999_999, 10), 9);
    assert_eq!(count_digits(1_000_000_000, 10), 10);
    assert_eq!(count_digits(u32::MAX, 10), 10);
    assert_eq!(count_digits(u32::MAX, 2), 32);
    assert_eq!(count_digits(255, 16), 2);
    assert_eq!(count_digits(256, 16), 3);
    assert_eq!(count_digits(1, 2), 1);
    assert_eq!(count_digits(2, 2), 2);
}

#[test]
fn tokens_in_messages() {
    assert_eq!(format_kind(TokenKind::Ident), "identifier");
    assert_eq!(format_kind(TokenKind::Quote), "`\"`");
    assert_eq!(format_kind(TokenKind::LBrace), "`{`");
    assert_eq!(format_kind(TokenKind::CommentLeader), "comment");
    assert_eq!(format_kind(TokenKind::Error), "an unrecognized token");
}

#[test]
fn syntax_error_messages() {
    let missing = SyntaxError {
        expected_syntax: ExpectedSyntax::Named("expression".to_string()),
        kind: SyntaxErrorKind::Missing { offset: 3 },
    };
    assert_eq!(syntax_error_message(&missing), "missing expression");
    let unexpected = SyntaxError {
        expected_syntax: ExpectedSyntax::Unnamed(TokenKind::RParen),
        kind: SyntaxErrorKind::Unexpected { found: TokenKind::Semicolon, range: TextRange::new(4, 5) },
    };
    assert_eq!(syntax_error_message(&unexpected), "expected `)` but found `;`");
}

#[test]
fn messages_of_the_passes() {
    let mut interner = Interner::new();
    let foo = interner.intern("foo");
    let range = TextRange::new(0, 1);
    assert_eq!(
        validation_diagnostic_message(&ValidationDiagnostic {
            kind: ValidationDiagnosticKind::UnneededVoid,
            range
        }),
        "unneeded `void`"
    );
    let indexing = |kind| indexing_diagnostic_message(&IndexingDiagnostic { kind, range }, &interner);
    assert_eq!(
        indexing(IndexingDiagnosticKind::NonBindingAtRoot),
        "globals must be binding `::` and not variable `:=`"
    );
    assert_eq!(
        indexing(IndexingDiagnosticKind::AlreadyDefined { name: foo }),
        "name `foo` already defined"
    );
    assert_eq!(
        indexing(IndexingDiagnosticKind::MissingTy { name: foo }),
        "global `foo` must have a type"
    );
    assert_eq!(indexing(IndexingDiagnosticKind::FunctionTy), "lambdas can not be typed");
    assert_eq!(
        indexing(IndexingDiagnosticKind::TyParseError(TyParseError::NotATy)),
        "expected a type"
    );
    assert_eq!(
        indexing(IndexingDiagnosticKind::AlreadyDefined { name: Key::from_raw(77) }),
        "name `<unknown>` already defined"
    );
    assert_eq!(
        lower_ty_parse_error(&TyParseError::ArrayMissingSize),
        "array type is missing an explicit size"
    );
    assert_eq!(
        lower_ty_parse_error(&TyParseError::ArraySizeNotConst(range)),
        "array type size must be a constant integer"
    );
    assert_eq!(
        lower_ty_parse_error(&TyParseError::ArraySizeOutOfBounds(range)),
        "integer literal out of range"
    );
    assert_eq!(
        lower_ty_parse_error(&TyParseError::ArrayHasBody(range)),
        "array type cannot have a body"
    );
    assert_eq!(
        lower_ty_parse_error(&TyParseError::NonGlobalTy),
        "tried to use a non-global variable as a type"
    );
    let lowering = |kind| lowering_diagnostic_message(&LoweringDiagnostic { kind, range }, &interner);
    assert_eq!(
        lowering(LoweringDiagnosticKind::OutOfRangeIntLiteral),
        "integer literal out of range"
    );
    assert_eq!(
        lowering(LoweringDiagnosticKind::UndefinedRef { name: foo }),
        "undefined reference to `foo`"
    );
    assert_eq!(
        lowering(LoweringDiagnosticKind::ArraySizeMismatch { found: 6, expected: 3 }),
        "expected `3` elements in the array but found `6`"
    );
    assert_eq!(lowering(LoweringDiagnosticKind::InvalidEscape), "invalid escape");
    assert_eq!(
        lowering(LoweringDiagnosticKind::ImportDoesNotExist { file: "/a/b.capy".to_string() }),
        "`/a/b.capy` couldn't be found"
    );
}

#[test]
fn type_messages() {
    let mut interner = Interner::new();
    let name = interner.intern("thing");
    let mut arena = Arena::new();
    let i32_ = TyId(arena.alloc(ResolvedTy::IInt(32)).into_raw().into_u32());
    let ptr = TyId(arena.alloc(ResolvedTy::Pointer { sub_ty: i32_ }).into_raw().into_u32());
    let range = TextRange::new(0, 1);
    let message = |kind| ty_diagnostic_message(&TyDiagnostic { kind, range }, &arena, &interner);
    assert_eq!(
        message(TyDiagnosticKind::Mismatch {
            expected: ResolvedTy::UInt(32),
            found: ResolvedTy::IInt(0)
        }),
        "expected `u32` but found `{int}`"
    );
    assert_eq!(
        message(TyDiagnosticKind::Uncastable {
            from: ResolvedTy::Pointer { sub_ty: ptr },
            to: ResolvedTy::Array { size: 3, sub_ty: i32_ }
        }),
        "cannot cast `^^i32` to `[3]i32`"
    );
    assert_eq!(
        message(TyDiagnosticKind::OpMismatch {
            op: BinaryOp::Add,
            first: ResolvedTy::Bool,
            second: ResolvedTy::String
        }),
        "`bool` cannot be added to `string`"
    );
    assert_eq!(
        message(TyDiagnosticKind::OpMismatch {
            op: BinaryOp::Le,
            first: ResolvedTy::Char,
            second: ResolvedTy::Void
        }),
        "`char` cannot be compared to `void`"
    );
    assert_eq!(
        message(TyDiagnosticKind::IfMismatch {
            found: ResolvedTy::IInt(8),
            expected: ResolvedTy::Float(64)
        }),
        "`if` and `else` have different types, expected `i8` but found `f64`"
    );
    assert_eq!(
        message(TyDiagnosticKind::IndexMismatch { found: ResolvedTy::UInt(u32::MAX) }),
        "tried indexing `[]` a non-array, `usize`"
    );
    assert_eq!(
        message(TyDiagnosticKind::DerefMismatch { found: ResolvedTy::Slice { sub_ty: i32_ } }),
        "tried dereferencing `^` a non-pointer, `[]i32`"
    );
    assert_eq!(
        message(TyDiagnosticKind::MissingElse {
            expected: ResolvedTy::Distinct { uid: 4, ty: i32_ }
        }),
        "this `if` is missing an `else` with type `distinct'4 i32`"
    );
    assert_eq!(message(TyDiagnosticKind::Undefined { name }), "undefined type `thing`");
    // a part that is not in the arena
    assert_eq!(
        message(TyDiagnosticKind::IndexMismatch {
            found: ResolvedTy::Pointer { sub_ty: TyId(99) }
        }),
        "tried indexing `[]` a non-array, `^<unknown>`"
    );
}

#[test]
fn severity_and_range() {
    let range = TextRange::new(5, 9);
    let validation = Diagnostic::from_validation(ValidationDiagnostic {
        kind: ValidationDiagnosticKind::UnneededVoid,
        range,
    });
    assert!(validation.severity() == Severity::Warning);
    assert_eq!(validation.range(), range);
    let lowering = Diagnostic::from_lowering(LoweringDiagnostic {
        kind: LoweringDiagnosticKind::InvalidEscape,
        range,
    });
    assert!(lowering.severity() == Severity::Error);
    assert_eq!(lowering.range(), range);
    let indexing = Diagnostic::from_indexing(IndexingDiagnostic {
        kind: IndexingDiagnosticKind::FunctionTy,
        range,
    });
    assert!(indexing.severity() == Severity::Error);
    let ty = Diagnostic::from_ty(TyDiagnostic {
        kind: TyDiagnosticKind::IndexMismatch { found: ResolvedTy::Bool },
        range,
    });
    assert!(ty.severity() == Severity::Error);
    assert_eq!(ty.range(), range);
    let missing = Diagnostic::from_syntax(SyntaxError {
        expected_syntax: ExpectedSyntax::Unnamed(TokenKind::Ident),
        kind: SyntaxErrorKind::Missing { offset: 7 },
    });
    assert!(missing.severity() == Severity::Error);
    assert_eq!(missing.range(), TextRange::new(7, 8));
    let unexpected = Diagnostic::from_syntax(SyntaxError {
        expected_syntax: ExpectedSyntax::Unnamed(TokenKind::Ident),
        kind: SyntaxErrorKind::Unexpected { found: TokenKind::Int, range },
    });
    assert_eq!(unexpected.range(), range);
    let interner = Interner::new();
    let arena = Arena::new();
    assert_eq!(missing.message(&arena, &interner), "missing identifier");
    assert_eq!(validation.message(&arena, &interner), "unneeded `void`");
}

#[test]
fn lines_of_a_text() {
    let texts = |lines: Vec<String>| lines;
    assert_eq!(texts(lines_of("")), Vec::<String>::new());
    assert_eq!(lines_of("a"), vec!["a"]);
    assert_eq!(lines_of("a\n"), vec!["a"]);
    assert_eq!(lines_of("\n"), vec![""]);
    assert_eq!(lines_of("a\n\nb"), vec!["a", "", "b"]);
    assert_eq!(lines_of("foo\nbar\n\r\nbaz\r"), vec!["foo", "bar", "", "baz\r"]);
    assert_eq!(lines_of("x\r\ny\r\n"), vec!["x", "y"]);
    for text in ["", "a", "a\n", "\n\n", "a\r\nb", "a\rb\n", "é\n🦀", "\r\n"] {
        let expected: Vec<&str> = text.lines().collect();
        assert_eq!(lines_of(text), expected, "{:?}", text);
    }
}

#[test]
fn lines_and_columns() {
    let index = LineIndex::new("ab\ncde\n\nf");
    assert_eq!(index.line_col(0), (LineNr(0), ColNr(0)));
    assert_eq!(index.line_col(1), (LineNr(0), ColNr(1)));
    assert_eq!(index.line_col(2), (LineNr(0), ColNr(2)));
    assert_eq!(index.line_col(3), (LineNr(1), ColNr(0)));
    assert_eq!(index.line_col(5), (LineNr(1), ColNr(2)));
    assert_eq!(index.line_col(7), (LineNr(2), ColNr(0)));
    assert_eq!(index.line_col(8), (LineNr(3), ColNr(0)));
    assert_eq!(index.line_col(100), (LineNr(3), ColNr(92)));
    let empty = LineIndex::new("");
    assert_eq!(empty.line_col(0), (LineNr(0), ColNr(0)));
}

#[test]
fn a_snippet_within_one_line() {
    let mut lines = vec!["title".to_string()];
    input_snippet(
        "main.capy",
        "first\nsecond line\nthird",
        LineNr(1),
        ColNr(7),
        LineNr(1),
        ColNr(10),
        TextRange::new(13, 17),
        &mut lines,
    );
    assert_eq!(
        lines,
        vec![
            "title",
            "\x1B[1;90m --> at main.capy:2:8",
            "\x1B[1;90m  | ",
            "\x1B[1;90m2 | \x1B[0msecond line",
            "\x1B[1;90m  |        \x1B[1;93m^^^^\x1B[0m",
        ]
    );
}

#[test]
fn a_snippet_over_several_lines() {
    let source = "l1\nl2\nl3\nl4\nl5\nl6\nl7\nl8\nl9 start\nl10\nl11 end\nl12";
    let mut lines = Vec::new();
    input_snippet(
        "dir/file.capy",
        source,
        LineNr(8),
        ColNr(3),
        LineNr(10),
        ColNr(6),
        TextRange::new(27, 47),
        &mut lines,
    );
    assert_eq!(
        lines,
        vec![
            "\x1B[1;90m  --> at dir/file.capy:9:4",
            "\x1B[1;90m   | ",
            "\x1B[1;90m9  | \x1B[1;93m  \x1B[0ml9 start",
            "\x1B[1;90m   | \x1B[1;93m ____^",
            "\x1B[1;90m10 | \x1B[1;93m| \x1B[0ml10",
            "\x1B[1;90m11 | \x1B[1;93m| \x1B[0ml11 end",
            "\x1B[1;90m   | \x1B[1;93m|_______^\x1B[0m",
        ]
    );
}

#[test]
fn a_diagnostic_is_shown_with_its_source() {
    let source = "foo :: () {\n    x := 1e20;\n}\n";
    let diagnostic = Diagnostic::from_lowering(LoweringDiagnostic {
        kind: LoweringDiagnosticKind::OutOfRangeIntLiteral,
        range: TextRange::new(21, 25),
    });
    let interner = Interner::new();
    let arena = Arena::new();
    let lines = diagnostic.display("main.capy", source, &arena, &interner, &LineIndex::new(source));
    assert_eq!(
        lines,
        vec![
            "\x1B[1;91merror\x1B[1;97m: integer literal out of range",
            "\x1B[1;90m --> at main.capy:2:10",
            "\x1B[1;90m  | ",
            "\x1B[1;90m2 | \x1B[0m    x := 1e20;",
            "\x1B[1;90m  |          \x1B[1;93m^^^^\x1B[0m",
        ]
    );
    let warning = Diagnostic::from_validation(ValidationDiagnostic {
        kind: ValidationDiagnosticKind::UnneededVoid,
        range: TextRange::new(0, 3),
    });
    let lines = warning.display("main.capy", source, &arena, &interner, &LineIndex::new(source));
    assert_eq!(lines[0], "\x1B[1;93mwarning\x1B[1;97m: unneeded `void`");
    assert_eq!(lines.len(), 5);
}

#[test]
fn a_type_is_written_wherever_its_parts_stand() {
    let interner = Interner::new();
    let mut arena: Arena<ResolvedTy> = Arena::new();
    arena.alloc(ResolvedTy::Pointer { sub_ty: TyId(2) });
    arena.alloc(ResolvedTy::IInt(32));
    arena.alloc(ResolvedTy::Array { size: 4, sub_ty: TyId(1) });
    arena.alloc(ResolvedTy::Pointer { sub_ty: TyId(3) });
    let outer = ResolvedTy::Slice { sub_ty: TyId(0) };
    assert_eq!(outer.display(&arena, &interner), "[]^[4]i32");
    assert_eq!(ResolvedTy::Pointer { sub_ty: TyId(1) }.display(&arena, &interner), "^i32");
    // a pointer to itself: the descent is given up after as many steps
    // as the arena has slots
    assert_eq!(
        ResolvedTy::Pointer { sub_ty: TyId(3) }.display(&arena, &interner),
        "^^^^^<unknown>"
    );
    assert_eq!(ResolvedTy::Pointer { sub_ty: TyId(4) }.display(&arena, &interner), "^<unknown>");
}
