use capy::codegen::{
    declaration, exit_code_conversion, is_compiled, linker_arguments, ExitCode, FunctionQueue,
    Linkage, Verbosity,
};
use capy::comptime::{ComptimeCache, ComptimeResult, Demand};
use capy::interner::Interner;
use capy::marker::{CompletedMarker, Event, Marker, NodeKind, Parser};
use capy::names::{FQComptime, FileName, Fqn, Name};
use capy::syntax::{Define, Expr, ExprKind, Ident, Root};
use capy::text_range::TextRange;
use capy::ty::{ResolvedTy, TyId};
use capy::uid::UIDGenerator;

fn fqn(interner: &mut Interner, file: &str, name: &str) -> Fqn {
    Fqn { file: FileName(interner.intern(file)), name: Name(interner.intern(name)) }
}

#[test]
fn the_exit_code_is_as_wide_as_a_pointer() {
    assert_eq!(exit_code_conversion(ResolvedTy::IInt(32), 64), ExitCode::ZeroExtend);
    assert_eq!(exit_code_conversion(ResolvedTy::IInt(16), 64), ExitCode::ZeroExtend);
    assert_eq!(exit_code_conversion(ResolvedTy::UInt(8), 32), ExitCode::ZeroExtend);
    assert_eq!(exit_code_conversion(ResolvedTy::IInt(64), 64), ExitCode::Keep);
    assert_eq!(exit_code_conversion(ResolvedTy::UInt(32), 32), ExitCode::Keep);
    assert_eq!(exit_code_conversion(ResolvedTy::IInt(128), 64), ExitCode::Truncate);
    assert_eq!(exit_code_conversion(ResolvedTy::UInt(64), 32), ExitCode::Truncate);
    // `isize` and `usize` are as wide as a pointer, a weak integer is 32 bits wide
    assert_eq!(exit_code_conversion(ResolvedTy::IInt(u32::MAX), 64), ExitCode::Keep);
    assert_eq!(exit_code_conversion(ResolvedTy::UInt(u32::MAX), 32), ExitCode::Keep);
    assert_eq!(exit_code_conversion(ResolvedTy::IInt(0), 64), ExitCode::ZeroExtend);
    assert_eq!(exit_code_conversion(ResolvedTy::UInt(0), 32), ExitCode::Keep);
}

#[test]
fn an_entry_point_that_returns_no_integer_exits_with_zero() {
    for ty in [
        ResolvedTy::Void,
        ResolvedTy::Bool,
        ResolvedTy::Float(64),
        ResolvedTy::String,
        ResolvedTy::Unknown,
        ResolvedTy::Pointer { sub_ty: TyId(0) },
    ] {
        assert_eq!(exit_code_conversion(ty, 64), ExitCode::Zero);
    }
}

#[test]
fn verbosity_decides_what_is_printed() {
    assert!(!Verbosity::Quiet.prints(false));
    assert!(!Verbosity::Quiet.prints(true));
    assert!(Verbosity::LocalFunctions.prints(false));
    assert!(!Verbosity::LocalFunctions.prints(true));
    assert!(Verbosity::AllFunctions.prints(false));
    assert!(Verbosity::AllFunctions.prints(true));
}

#[test]
fn symbols_of_globals() {
    let mut interner = Interner::new();
    let main = fqn(&mut interner, "main.capy", "main");
    assert_eq!(main.to_mangled_name(&interner), "main_00002ecapy.main");
    let odd = fqn(&mut interner, "/a b/é_x.capy", "do_it");
    assert_eq!(
        odd.to_mangled_name(&interner),
        "_00002fa_000020b_00002f_0000e9__x_00002ecapy.do__it"
    );
}

#[test]
fn distinct_globals_get_distinct_symbols() {
    let mut interner = Interner::new();
    let pairs = [
        ("a.capy", "b"),
        ("a", "capy.b"),
        ("a.capy", "_b"),
        ("a.capy_", "b"),
        ("a_", "b"),
        ("a", "_b"),
        ("a__", "b"),
        ("a", "__b"),
        ("a_5f", "b"),
        ("", "a.capyb"),
        ("a.capyb", ""),
    ];
    let symbols: Vec<String> = pairs
        .iter()
        .map(|(file, name)| fqn(&mut interner, file, name).to_mangled_name(&interner))
        .collect();
    for (i, first) in symbols.iter().enumerate() {
        assert!(first.chars().all(|c| c.is_ascii_alphanumeric() || c == '_' || c == '.'));
        for second in &symbols[i + 1..] {
            assert_ne!(first, second);
        }
    }
    let again = fqn(&mut interner, "a.capy", "b").to_mangled_name(&interner);
    assert_eq!(again, symbols[0]);
}

#[test]
fn extern_functions_are_imported_under_their_own_name() {
    let mut interner = Interner::new();
    let puts = fqn(&mut interner, "libc.capy", "puts");
    let imported = declaration(puts, true, &interner);
    assert_eq!(imported.symbol, "puts");
    assert_eq!(imported.linkage, Linkage::Import);
    let exported = declaration(puts, false, &interner);
    assert_eq!(exported.symbol, "libc_00002ecapy.puts");
    assert_eq!(exported.linkage, Linkage::Export);
}

#[test]
fn functions_are_compiled_in_the_order_they_are_asked_for() {
    let mut interner = Interner::new();
    let main = fqn(&mut interner, "main.capy", "main");
    let fib = fqn(&mut interner, "main.capy", "fib");
    let puts = fqn(&mut interner, "io.capy", "puts");
    let mut queue = FunctionQueue::new(main);
    assert_eq!(queue.get(main), None);
    assert_eq!(queue.next(), Some(main));
    queue.declare(main, 0);
    // compiling `main` asks for `fib`, then `puts`, then `fib` again
    assert_eq!(queue.request(fib), None);
    queue.declare(fib, 1);
    assert_eq!(queue.request(puts), None);
    queue.declare(puts, 2);
    assert_eq!(queue.request(fib), Some(1));
    assert_eq!(queue.request(main), Some(0));
    assert_eq!(queue.next(), Some(fib));
    assert_eq!(queue.request(fib), Some(1));
    assert_eq!(queue.next(), Some(puts));
    assert_eq!(queue.next(), None);
    assert_eq!(queue.next(), None);
    // a later declaration of a function counts
    queue.declare(fib, 7);
    assert_eq!(queue.get(fib), Some(7));
    assert_eq!(queue.get(puts), Some(2));
}

#[test]
fn arguments_of_the_linker() {
    assert_eq!(linker_arguments("out/a.o", "out/a", false, None), vec!["out/a.o", "-o", "out/a"]);
    assert_eq!(
        linker_arguments("a.o", "a", true, None),
        vec!["a.o", "-o", "a", "-Xlinker", "-ld_classic"]
    );
    let libs = vec!["m".to_string(), "pthread".to_string()];
    assert_eq!(
        linker_arguments("a.o", "a", false, Some(&libs)),
        vec!["a.o", "-o", "a", "-lm", "-lpthread"]
    );
    assert_eq!(
        linker_arguments("a.o", "a", true, Some(&libs)),
        vec!["a.o", "-o", "a", "-Xlinker", "-ld_classic", "-lm", "-lpthread"]
    );
    assert_eq!(linker_arguments("a.o", "a", false, Some(&vec![])), vec!["a.o", "-o", "a"]);
}

fn block(interner: &mut Interner, name: &str, comptime: u32) -> FQComptime {
    FQComptime { fqn: fqn(interner, "main.capy", name), comptime }
}

#[test]
fn a_block_is_evaluated_once() {
    let mut interner = Interner::new();
    let first = block(&mut interner, "main", 0);
    let second = block(&mut interner, "main", 1);
    let mut cache = ComptimeCache::new();
    assert_eq!(cache.get(first), None);
    assert_eq!(cache.demand(first), Demand::Evaluate);
    // while the block is evaluated nobody else evaluates it
    assert_eq!(cache.demand(first), Demand::Wait);
    assert_eq!(cache.get(first), None);
    let forty_two = ComptimeResult { bytes: vec![42, 0, 0, 0], ty: ResolvedTy::IInt(32) };
    cache.finish(first, forty_two.clone());
    for _ in 0..3 {
        assert_eq!(cache.demand(first), Demand::Cached);
        assert_eq!(cache.get(first), Some(&forty_two));
    }
    // other blocks go their own way
    assert_eq!(cache.get(second), None);
    assert_eq!(cache.demand(second), Demand::Evaluate);
    assert_eq!(cache.demand(first), Demand::Cached);
    let unit = ComptimeResult { bytes: vec![], ty: ResolvedTy::Void };
    cache.finish(second, unit.clone());
    assert_eq!(cache.get(second), Some(&unit));
    assert_eq!(cache.get(first), Some(&forty_two));
    assert_eq!(cache.demand(second), Demand::Cached);
}

#[test]
fn blocks_are_told_apart_by_file_name_and_index() {
    let mut interner = Interner::new();
    let mut cache = ComptimeCache::new();
    let a = block(&mut interner, "a", 0);
    let b = block(&mut interner, "b", 0);
    let other_file =
        FQComptime { fqn: fqn(&mut interner, "other.capy", "a"), comptime: 0 };
    assert_eq!(cache.demand(a), Demand::Evaluate);
    assert_eq!(cache.demand(b), Demand::Evaluate);
    assert_eq!(cache.demand(other_file), Demand::Evaluate);
    assert_eq!(cache.demand(a), Demand::Wait);
}

#[test]
fn a_completed_marker_wraps_its_events() {
    let mut parser = Parser { events: vec![None, Some(Event::AddToken)] };
    let marker = Marker::new(0);
    let completed: CompletedMarker = marker.complete(&mut parser, NodeKind::IntLiteral);
    assert_eq!(
        parser.events,
        vec![
            Some(Event::StartNode { kind: NodeKind::IntLiteral }),
            Some(Event::AddToken),
            Some(Event::FinishNode),
        ]
    );
    let outer = completed.precede(&mut parser);
    assert_eq!(
        parser.events,
        vec![
            None,
            Some(Event::StartNode { kind: NodeKind::IntLiteral }),
            Some(Event::AddToken),
            Some(Event::FinishNode),
        ]
    );
    parser.events.push(Some(Event::AddToken));
    outer.complete(&mut parser, NodeKind::BinaryExpr);
    assert_eq!(
        parser.events,
        vec![
            Some(Event::StartNode { kind: NodeKind::BinaryExpr }),
            Some(Event::StartNode { kind: NodeKind::IntLiteral }),
            Some(Event::AddToken),
            Some(Event::FinishNode),
            Some(Event::AddToken),
            Some(Event::FinishNode),
        ]
    );
}

fn int_literal(text: &str, start: u32) -> Option<Box<Expr>> {
    Some(Box::new(Expr {
        kind: ExprKind::IntLiteral { text: Some(text.to_string()) },
        range: TextRange::new(start, start + text.len() as u32),
    }))
}

#[test]
fn the_weight_of_a_file_bounds_what_lowering_adds() {
    let root = Root {
        defs: vec![
            Define {
                mutable: false,
                name: Some(Ident { text: "a".to_string(), range: TextRange::new(0, 1) }),
                ty: None,
                value: int_literal("1", 5),
                range: TextRange::new(0, 6),
            },
            Define {
                mutable: false,
                name: Some(Ident { text: "b".to_string(), range: TextRange::new(8, 9) }),
                ty: None,
                value: Some(Box::new(Expr {
                    kind: ExprKind::Binary {
                        lhs: int_literal("2", 13),
                        rhs: None,
                        op: Some(capy::ops::BinaryOp::Add),
                    },
                    range: TextRange::new(13, 16),
                })),
                range: TextRange::new(8, 16),
            },
        ],
    };
    // 1 + 1 + (1 + 1) for `a`; 1 + 1 + (1 + 1 + (1 + 1) + 1) for `b`
    assert_eq!(root.weigh(100), Some(11));
    assert_eq!(root.weigh(11), Some(11));
    assert_eq!(root.weigh(10), None);
    assert_eq!(root.weigh(0), None);
    assert_eq!(Root { defs: vec![] }.weigh(0), Some(0));
    let interner = Interner::new();
    assert!(root.fits(&UIDGenerator::new(), &interner));
    assert!(root.fits(&UIDGenerator { next: u32::MAX - 11 }, &interner));
    assert!(!root.fits(&UIDGenerator { next: u32::MAX - 10 }, &interner));

    // with room the file is lowered as `lower` lowers it
    let host = capy::host::Host { separator: '/', disk: None };
    let mut uid_gen = UIDGenerator { next: u32::MAX - 11 };
    let mut names = Interner::new();
    let module = FileName(names.intern("main.capy"));
    let index = capy::index::index(&root, &mut names).0;
    let lowered =
        capy::lower::try_lower(&root, "main.capy", &index, &mut uid_gen, &mut names, &host);
    let (bodies, diagnostics) = lowered.expect("the file fits");
    assert!(diagnostics.is_empty());
    let mut again_gen = UIDGenerator { next: u32::MAX - 11 };
    let mut again_names = Interner::new();
    again_names.intern("main.capy");
    let again_index = capy::index::index(&root, &mut again_names).0;
    let (again, _) = capy::lower::lower(
        &root,
        "main.capy",
        &again_index,
        &mut again_gen,
        &mut again_names,
        &host,
    );
    let text = bodies.debug(module, "", &names, true);
    assert!(text.contains("main::a"));
    assert_eq!(text, again.debug(module, "", &again_names, true));
    assert_eq!(uid_gen.next, again_gen.next);
    assert_eq!(names.len(), again_names.len());

    // without room nothing is lowered, and nothing changes
    let mut full = UIDGenerator { next: u32::MAX - 10 };
    let before = names.len();
    assert!(capy::lower::try_lower(&root, "main.capy", &index, &mut full, &mut names, &host)
        .is_none());
    assert_eq!(full.next, u32::MAX - 10);
    assert_eq!(names.len(), before);
}

#[test]
fn an_extern_function_is_not_compiled() {
    assert!(is_compiled(false));
    assert!(!is_compiled(true));
}
