use capy::hir::PrimitiveTy;
use capy::host::{has_capy_extension, replace_separators, Disk};
use capy::literal::{parse_int_literal, unescape, unescape_components};
use capy::syntax::StringComponent;
use capy::text::{chars_of, string_of};
use capy::text_range::TextRange;

#[test]
fn plain_integers() {
    assert_eq!(parse_int_literal("0"), Some(0));
    assert_eq!(parse_int_literal("42"), Some(42));
    assert_eq!(parse_int_literal("007"), Some(7));
    assert_eq!(parse_int_literal("18446744073709551615"), Some(u64::MAX));
    assert_eq!(parse_int_literal("18446744073709551616"), None);
    assert_eq!(parse_int_literal("99999999999999999999999"), None);
}

#[test]
fn digit_separators_do_not_count() {
    assert_eq!(parse_int_literal("1_000_000"), Some(1_000_000));
    assert_eq!(parse_int_literal("_1_"), Some(1));
    assert_eq!(parse_int_literal("1_23_e9_"), Some(123_000_000_000));
    assert_eq!(parse_int_literal("4_5_6_E1_0_"), Some(4_560_000_000_000));
}

#[test]
fn exponents() {
    assert_eq!(parse_int_literal("1e0"), Some(1));
    assert_eq!(parse_int_literal("5E3"), Some(5000));
    assert_eq!(parse_int_literal("1e19"), Some(10_000_000_000_000_000_000));
    assert_eq!(parse_int_literal("1e20"), None);
    assert_eq!(parse_int_literal("2e19"), None);
    assert_eq!(parse_int_literal("18e18"), Some(18_000_000_000_000_000_000));
    assert_eq!(parse_int_literal("19e18"), None);
    // only the value counts: zero times any power of ten is zero
    assert_eq!(parse_int_literal("0e20"), Some(0));
    assert_eq!(parse_int_literal("0e19"), Some(0));
    assert_eq!(parse_int_literal("0e4294967296"), Some(0));
    assert_eq!(parse_int_literal("000e99999999999999999999999999"), Some(0));
    assert_eq!(parse_int_literal("1e4294967296"), None);
    assert_eq!(parse_int_literal("1e99999999999999999999999999"), None);
    assert_eq!(parse_int_literal("99999999999999999999999e0"), None);
    assert_eq!(parse_int_literal("0e"), None);
    assert_eq!(parse_int_literal("0ex"), None);
    // what follows a second mark does not count
    assert_eq!(parse_int_literal("1e2e3"), Some(100));
}

#[test]
fn texts_that_are_no_numbers() {
    assert_eq!(parse_int_literal(""), None);
    assert_eq!(parse_int_literal("_"), None);
    assert_eq!(parse_int_literal("e5"), None);
    assert_eq!(parse_int_literal("5e"), None);
    assert_eq!(parse_int_literal("5e_"), None);
    assert_eq!(parse_int_literal("12a"), None);
    assert_eq!(parse_int_literal("1e-3"), None);
    assert_eq!(parse_int_literal("١٢"), None);
}

#[test]
fn escape_sequences() {
    let table = [
        ('0', '\0'),
        ('a', '\x07'),
        ('b', '\x08'),
        ('n', '\n'),
        ('f', '\x0C'),
        ('r', '\r'),
        ('t', '\t'),
        ('v', '\x0B'),
        ('e', '\x1B'),
        ('\'', '\''),
        ('"', '"'),
        ('\\', '\\'),
    ];
    for (escaped, value) in table {
        assert_eq!(unescape(escaped), Some(value));
    }
    for escaped in ['j', 'x', 'N', '1', ' ', '🦀'] {
        assert_eq!(unescape(escaped), None);
    }
}

#[test]
fn components_are_resolved_in_order() {
    let components = vec![
        StringComponent::Contents { text: "a".to_string() },
        StringComponent::Escape { escaped: 'j', range: TextRange::new(1, 3) },
        StringComponent::Contents { text: "bc".to_string() },
        StringComponent::Escape { escaped: 'n', range: TextRange::new(5, 7) },
        StringComponent::Escape { escaped: '🦀', range: TextRange::new(7, 12) },
    ];
    let unescaped = unescape_components(&components);
    assert_eq!(unescaped.text, "abc\n");
    assert_eq!(unescaped.invalid, vec![TextRange::new(1, 3), TextRange::new(7, 12)]);
    assert_eq!(unescaped.written, 2);
}

#[test]
fn the_written_length_counts_an_escape_as_one() {
    let none = unescape_components(&vec![]);
    assert_eq!((none.text.as_str(), none.written), ("", 0));
    let one = unescape_components(&vec![StringComponent::Escape {
        escaped: 'q',
        range: TextRange::new(0, 2),
    }]);
    assert_eq!((one.text.as_str(), one.written), ("", 1));
    let crab = unescape_components(&vec![StringComponent::Contents { text: "🦀".to_string() }]);
    assert_eq!((crab.text.as_str(), crab.written), ("🦀", 1));
    let empty = unescape_components(&vec![StringComponent::Contents { text: String::new() }]);
    assert_eq!(empty.written, 0);
}

#[test]
fn primitive_types_by_name() {
    assert_eq!(PrimitiveTy::parse("i8"), Some(PrimitiveTy::IInt(8)));
    assert_eq!(PrimitiveTy::parse("i128"), Some(PrimitiveTy::IInt(128)));
    assert_eq!(PrimitiveTy::parse("isize"), Some(PrimitiveTy::IInt(u32::MAX)));
    assert_eq!(PrimitiveTy::parse("u16"), Some(PrimitiveTy::UInt(16)));
    assert_eq!(PrimitiveTy::parse("usize"), Some(PrimitiveTy::UInt(u32::MAX)));
    assert_eq!(PrimitiveTy::parse("f32"), Some(PrimitiveTy::Float(32)));
    assert_eq!(PrimitiveTy::parse("f64"), Some(PrimitiveTy::Float(64)));
    assert_eq!(PrimitiveTy::parse("bool"), Some(PrimitiveTy::Bool));
    assert_eq!(PrimitiveTy::parse("str"), Some(PrimitiveTy::String));
    assert_eq!(PrimitiveTy::parse("string"), Some(PrimitiveTy::String));
    assert_eq!(PrimitiveTy::parse("char"), Some(PrimitiveTy::Char));
    assert_eq!(PrimitiveTy::parse("type"), Some(PrimitiveTy::Type));
    assert_eq!(PrimitiveTy::parse("any"), Some(PrimitiveTy::Any));
    assert_eq!(PrimitiveTy::parse("void"), Some(PrimitiveTy::Void));
    assert_eq!(PrimitiveTy::parse("i7"), None);
    assert_eq!(PrimitiveTy::parse("I32"), None);
    assert_eq!(PrimitiveTy::parse(""), None);
}

#[test]
fn primitive_types_are_shown_by_name() {
    for name in ["i8", "i16", "i32", "i64", "i128", "isize", "u8", "u64", "usize", "f32", "f64"] {
        assert_eq!(PrimitiveTy::parse(name).unwrap().display(), name);
    }
    assert_eq!(PrimitiveTy::String.display(), "string");
    assert_eq!(PrimitiveTy::IInt(0).display(), "{int}");
    assert_eq!(PrimitiveTy::UInt(0).display(), "{uint}");
    assert_eq!(PrimitiveTy::Void.display(), "void");
}

#[test]
fn separators_are_replaced() {
    assert_eq!(replace_separators("a/b\\c.capy", '/'), "a/b/c.capy");
    assert_eq!(replace_separators("a/b\\c.capy", '\\'), "a\\b\\c.capy");
    assert_eq!(replace_separators("plain", '/'), "plain");
    assert_eq!(replace_separators("", '/'), "");
}

#[test]
fn the_extension_of_a_source_file() {
    assert!(has_capy_extension("a.capy"));
    assert!(has_capy_extension(".capy"));
    assert!(has_capy_extension("dir/é.capy"));
    assert!(!has_capy_extension("a.cap"));
    assert!(!has_capy_extension("a.capy "));
    assert!(!has_capy_extension("capy"));
    assert!(!has_capy_extension("a.CAPY"));
    assert!(!has_capy_extension(""));
}

#[test]
fn import_paths_are_joined_and_cleaned() {
    let disk = Disk {
        current_dir: "/work".to_string(),
        files: vec!["/work/src/b.capy".to_string()],
    };
    assert_eq!(disk.resolve("src/main.capy", "b.capy"), "/work/src/b.capy");
    assert_eq!(disk.resolve("src/main.capy", "./a/../b.capy"), "/work/src/b.capy");
    assert_eq!(disk.resolve("src/main.capy", "../lib/c.capy"), "/work/lib/c.capy");
    assert_eq!(disk.resolve("/abs/main.capy", "d.capy"), "/abs/d.capy");
    assert!(disk.has_file("/work/src/b.capy"));
    assert!(!disk.has_file("/work/src/c.capy"));
    assert!(!disk.has_file("b.capy"));
}

#[test]
fn text_to_characters_and_back() {
    for text in ["", "abc", "🦀é\n", "a\u{0}b"] {
        let chars = chars_of(text);
        assert_eq!(chars, text.chars().collect::<Vec<char>>());
        assert_eq!(string_of(&chars), text);
    }
}
