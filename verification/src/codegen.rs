//! The decisions of the code-generation driver: the order in which
//! functions are compiled, the names and linkage that they are declared
//! with, and what the entry trampoline does with the program's result.

use crate::interner::{name_text, Interner, Key};
use crate::names::Fqn;
use crate::store::{function_ids_get, function_ids_insert, new_function_ids, FunctionIds};
use crate::text::{chars_of, push_char};
use crate::ty::ResolvedTy;
use std::collections::VecDeque;
use vstd::prelude::*;
use vstd::string::StringExecFns;

verus! {

/// How much of the generated code is printed.
#[derive(Debug, PartialEq, Eq, Clone, Copy, Structural)]
pub enum Verbosity {
    /// Nothing.
    Quiet,
    /// The functions of the program.
    LocalFunctions,
    /// Every function, the stubs of `extern` functions too.
    AllFunctions,
}

impl Verbosity {
    /// Whether the code of a function is printed: never when quiet, and
    /// that of an `extern` function only when all functions are printed.
    pub open spec fn shows(self, is_extern: bool) -> bool {
        match self {
            Verbosity::Quiet => false,
            Verbosity::LocalFunctions => !is_extern,
            Verbosity::AllFunctions => true,
        }
    }

    /// Whether the code of a function is printed.
    pub fn prints(self, is_extern: bool) -> (shown: bool)
        ensures
            shown == self.shows(is_extern),
    {
        match self {
            Verbosity::Quiet => false,
            Verbosity::LocalFunctions => !is_extern,
            Verbosity::AllFunctions => true,
        }
    }
}

/// How a function is visible to the linker.
#[derive(Debug, PartialEq, Eq, Clone, Copy, Structural)]
pub enum Linkage {
    /// Defined elsewhere.
    Import,
    /// Defined here, and visible from outside.
    Export,
}

/// What the entry trampoline does with the result of the program's
/// entry point to make the exit code, which is as wide as a pointer.
#[derive(Debug, PartialEq, Eq, Clone, Copy, Structural)]
pub enum ExitCode {
    /// The result is narrower: it is extended with zeros.
    ZeroExtend,
    /// The result is as wide: it is the exit code.
    Keep,
    /// The result is wider: its high bits are cut off.
    Truncate,
    /// The result is no integer: the exit code is 0.
    Zero,
}

/// The width in bits of the integer type `ty` on a machine with pointers
/// of `pointer_bits` bits: a weak integer is 32 bits wide, `isize` and
/// `usize` as wide as a pointer. No width for a type that is no integer.
pub open spec fn int_width(ty: ResolvedTy, pointer_bits: u32) -> Option<u32> {
    match ty {
        ResolvedTy::IInt(width) | ResolvedTy::UInt(width) => if width == u32::MAX {
            Some(pointer_bits)
        } else if width == 0 {
            Some(32)
        } else {
            Some(width)
        },
        _ => None,
    }
}

/// What the trampoline does with a result of the type `return_ty`.
pub open spec fn exit_code_of(return_ty: ResolvedTy, pointer_bits: u32) -> ExitCode {
    match int_width(return_ty, pointer_bits) {
        Some(width) => if width < pointer_bits {
            ExitCode::ZeroExtend
        } else if width == pointer_bits {
            ExitCode::Keep
        } else {
            ExitCode::Truncate
        },
        None => ExitCode::Zero,
    }
}

/// What the entry trampoline does with the result of an entry point
/// that returns `return_ty`, on a machine with pointers of
/// `pointer_bits` bits.
pub fn exit_code_conversion(return_ty: ResolvedTy, pointer_bits: u32) -> (conversion: ExitCode)
    ensures
        conversion == exit_code_of(return_ty, pointer_bits),
{
    let width: u32 = match return_ty {
        ResolvedTy::IInt(width) | ResolvedTy::UInt(width) => {
            if width == u32::MAX {
                pointer_bits
            } else if width == 0 {
                32
            } else {
                width
            }
        },
        _ => {
            return ExitCode::Zero;
        },
    };
    if width < pointer_bits {
        ExitCode::ZeroExtend
    } else if width == pointer_bits {
        ExitCode::Keep
    } else {
        ExitCode::Truncate
    }
}

/// A letter or a digit of ASCII.
pub open spec fn is_plain(c: char) -> bool {
    ||| 0x30 <= c as u32 <= 0x39
    ||| 0x41 <= c as u32 <= 0x5a
    ||| 0x61 <= c as u32 <= 0x7a
}

/// The hexadecimal digit for `d`.
pub open spec fn hex_digit(d: nat) -> char {
    if d < 10 {
        ((0x30 + d) as u8) as char
    } else {
        ((0x61 + d - 10) as u8) as char
    }
}

/// The character `c` in a symbol: itself if it is a letter or a digit,
/// `__` for an underscore, and else an underscore and the six
/// hexadecimal digits of its code point.
pub open spec fn escaped_char(c: char) -> Seq<char> {
    if is_plain(c) {
        seq![c]
    } else if c == '_' {
        seq!['_', '_']
    } else {
        let code = c as u32 as nat;
        seq![
            '_',
            hex_digit(code / 0x10_0000 % 16),
            hex_digit(code / 0x1_0000 % 16),
            hex_digit(code / 0x1000 % 16),
            hex_digit(code / 0x100 % 16),
            hex_digit(code / 0x10 % 16),
            hex_digit(code % 16),
        ]
    }
}

/// The first `n` characters of `text` in a symbol.
pub open spec fn escaped(text: Seq<char>, n: nat) -> Seq<char>
    decreases n,
{
    if n == 0 || n > text.len() {
        Seq::empty()
    } else {
        escaped(text, (n - 1) as nat) + escaped_char(text[n - 1])
    }
}

/// The symbol of the global `name` of the file at `path`: the path and
/// the name, both escaped, with a dot between them. A symbol holds only
/// letters, digits, underscores and the one dot.
pub open spec fn mangled(path: Seq<char>, name: Seq<char>) -> Seq<char> {
    escaped(path, path.len()) + seq!['.'] + escaped(name, name.len())
}

/// A character that a symbol is made of, the dot aside.
pub open spec fn is_symbol_char(c: char) -> bool {
    is_plain(c) || c == '_'
}

/// A hexadecimal digit is a letter or a digit, and tells its value.
pub proof fn lemma_hex_digit(d: nat, other: nat)
    requires
        d < 16,
        other < 16,
    ensures
        is_plain(hex_digit(d)),
        hex_digit(d) != '_',
        hex_digit(d) == hex_digit(other) ==> d == other,
{
    assert(d < 10 ==> hex_digit(d) as u32 == 0x30 + d);
    assert(d >= 10 ==> hex_digit(d) as u32 == 0x61 + d - 10);
    assert(other < 10 ==> hex_digit(other) as u32 == 0x30 + other);
    assert(other >= 10 ==> hex_digit(other) as u32 == 0x61 + other - 10);
}

/// What a character is escaped to starts with the character itself if
/// it is plain, and with an underscore if not; it holds only letters,
/// digits and underscores.
pub proof fn lemma_escaped_char_shape(c: char)
    ensures
        escaped_char(c).len() >= 1,
        is_plain(c) ==> escaped_char(c) == seq![c],
        !is_plain(c) ==> escaped_char(c)[0] == '_' && escaped_char(c).len() >= 2,
        !is_plain(c) && c != '_' ==> escaped_char(c).len() == 7 && escaped_char(c)[1] != '_',
        forall|i: int|
            0 <= i < escaped_char(c).len() ==> is_symbol_char(#[trigger] escaped_char(c)[i]),
{
    let code = c as u32 as nat;
    lemma_hex_digit(code / 0x10_0000 % 16, 0);
    lemma_hex_digit(code / 0x1_0000 % 16, 0);
    lemma_hex_digit(code / 0x1000 % 16, 0);
    lemma_hex_digit(code / 0x100 % 16, 0);
    lemma_hex_digit(code / 0x10 % 16, 0);
    lemma_hex_digit(code % 16, 0);
    assert(!is_plain('_'));
}

/// A number below 16 to the 6th is told by its six hexadecimal digits.
proof fn lemma_six_digits(a: u32, b: u32)
    by (bit_vector)
    requires
        a < 0x100_0000,
        b < 0x100_0000,
        a / 0x10_0000 % 16 == b / 0x10_0000 % 16,
        a / 0x1_0000 % 16 == b / 0x1_0000 % 16,
        a / 0x1000 % 16 == b / 0x1000 % 16,
        a / 0x100 % 16 == b / 0x100 % 16,
        a / 0x10 % 16 == b / 0x10 % 16,
        a % 16 == b % 16,
    ensures
        a == b,
{
}

/// Two characters that are written with hexadecimal digits and are
/// escaped to the same text are the same character.
proof fn lemma_escaped_hex(a: char, b: char)
    requires
        !is_plain(a) && a != '_',
        !is_plain(b) && b != '_',
        escaped_char(a) == escaped_char(b),
    ensures
        a == b,
{
    let ca = a as u32 as nat;
    let cb = b as u32 as nat;
    let ea = escaped_char(a);
    let eb = escaped_char(b);
    assert(ca < 0x100_0000 && cb < 0x100_0000);
    assert(ea[1] == eb[1] && ea[2] == eb[2] && ea[3] == eb[3] && ea[4] == eb[4] && ea[5] == eb[5]
        && ea[6] == eb[6]);
    lemma_hex_digit(ca / 0x10_0000 % 16, cb / 0x10_0000 % 16);
    lemma_hex_digit(ca / 0x1_0000 % 16, cb / 0x1_0000 % 16);
    lemma_hex_digit(ca / 0x1000 % 16, cb / 0x1000 % 16);
    lemma_hex_digit(ca / 0x100 % 16, cb / 0x100 % 16);
    lemma_hex_digit(ca / 0x10 % 16, cb / 0x10 % 16);
    lemma_hex_digit(ca % 16, cb % 16);
    lemma_six_digits(a as u32, b as u32);
    assert(a as u32 == b as u32);
}

/// No escaped character is the start of another: of two texts that
/// start with escaped characters and are equal, the characters are
/// equal, and so is what follows them.
pub proof fn lemma_escaped_char_prefix(a: char, b: char, after_a: Seq<char>, after_b: Seq<char>)
    requires
        escaped_char(a) + after_a == escaped_char(b) + after_b,
    ensures
        a == b,
        after_a == after_b,
{
    let ea = escaped_char(a);
    let eb = escaped_char(b);
    let left = ea + after_a;
    let right = eb + after_b;
    lemma_escaped_char_shape(a);
    lemma_escaped_char_shape(b);
    assert(left[0] == ea[0]);
    assert(right[0] == eb[0]);
    assert(!is_plain('_'));
    if is_plain(a) {
        assert(is_plain(b));
    } else {
        assert(!is_plain(b));
        assert(left[1] == ea[1]);
        assert(right[1] == eb[1]);
        if a == '_' {
            assert(b == '_');
        } else {
            assert(b != '_');
            assert(ea =~= left.subrange(0, 7));
            assert(eb =~= right.subrange(0, 7));
            lemma_escaped_hex(a, b);
        }
    }
    assert(after_a =~= left.subrange(ea.len() as int, left.len() as int));
    assert(after_b =~= right.subrange(eb.len() as int, right.len() as int));
}

/// An escaped text is its first character, escaped, and the rest of
/// the text, escaped.
pub proof fn lemma_escaped_front(text: Seq<char>, n: nat)
    requires
        0 < n <= text.len(),
    ensures
        escaped(text, n) == escaped_char(text[0]) + escaped(text.drop_first(), (n - 1) as nat),
    decreases n,
{
    let rest = text.drop_first();
    if n == 1 {
        assert(escaped(text, 0) =~= Seq::<char>::empty());
        assert(escaped(rest, 0) =~= Seq::<char>::empty());
        assert(escaped(text, 1) =~= escaped_char(text[0]) + escaped(rest, 0));
    } else {
        lemma_escaped_front(text, (n - 1) as nat);
        assert(rest[n - 2] == text[n - 1]);
        assert(escaped(rest, (n - 1) as nat) == escaped(rest, (n - 2) as nat) + escaped_char(
            rest[n - 2],
        ));
        assert(escaped(text, n) =~= escaped_char(text[0]) + escaped(rest, (n - 1) as nat));
    }
}

/// Two texts that are escaped to texts that are equal up to a dot, and
/// have a dot there, are equal, and so is what follows.
pub proof fn lemma_escaped_until_dot(
    s: Seq<char>,
    t: Seq<char>,
    after_s: Seq<char>,
    after_t: Seq<char>,
)
    requires
        escaped(s, s.len()) + after_s == escaped(t, t.len()) + after_t,
        after_s.len() == 0 || after_s[0] == '.',
        after_t.len() == 0 || after_t[0] == '.',
        (after_s.len() == 0) == (after_t.len() == 0),
    ensures
        s == t,
        after_s == after_t,
    decreases s.len(),
{
    let left = escaped(s, s.len()) + after_s;
    let right = escaped(t, t.len()) + after_t;
    assert(!is_symbol_char('.'));
    if s.len() == 0 {
        assert(escaped(s, 0) =~= Seq::<char>::empty());
        assert(left =~= after_s);
        if t.len() > 0 {
            lemma_escaped_front(t, t.len());
            lemma_escaped_char_shape(t[0]);
            assert(right[0] == escaped_char(t[0])[0]);
            assert(is_symbol_char(right[0]));
            if after_s.len() > 0 {
                assert(left[0] == '.');
            } else {
                assert(left.len() == 0);
                assert(right.len() > 0);
            }
            assert(false);
        }
        assert(escaped(t, 0) =~= Seq::<char>::empty());
        assert(right =~= after_t);
        assert(s =~= t);
    } else if t.len() == 0 {
        assert(escaped(t, 0) =~= Seq::<char>::empty());
        assert(right =~= after_t);
        lemma_escaped_front(s, s.len());
        lemma_escaped_char_shape(s[0]);
        assert(left[0] == escaped_char(s[0])[0]);
        assert(is_symbol_char(left[0]));
        if after_t.len() > 0 {
            assert(right[0] == '.');
        } else {
            assert(right.len() == 0);
            assert(left.len() > 0);
        }
        assert(false);
    } else {
        lemma_escaped_front(s, s.len());
        lemma_escaped_front(t, t.len());
        let rest_s = escaped(s.drop_first(), (s.len() - 1) as nat) + after_s;
        let rest_t = escaped(t.drop_first(), (t.len() - 1) as nat) + after_t;
        assert(left =~= escaped_char(s[0]) + rest_s);
        assert(right =~= escaped_char(t[0]) + rest_t);
        lemma_escaped_char_prefix(s[0], t[0], rest_s, rest_t);
        lemma_escaped_until_dot(s.drop_first(), t.drop_first(), after_s, after_t);
        assert(s =~= seq![s[0]] + s.drop_first());
        assert(t =~= seq![t[0]] + t.drop_first());
    }
}

/// Equal globals get equal symbols, and distinct globals distinct ones:
/// two symbols are equal exactly when the paths are equal and the names
/// are equal.
pub proof fn lemma_mangled_injective(
    path: Seq<char>,
    name: Seq<char>,
    other_path: Seq<char>,
    other_name: Seq<char>,
)
    ensures
        mangled(path, name) == mangled(other_path, other_name) <==> path == other_path && name
            == other_name,
{
    if mangled(path, name) == mangled(other_path, other_name) {
        let after = seq!['.'] + escaped(name, name.len());
        let other_after = seq!['.'] + escaped(other_name, other_name.len());
        assert(mangled(path, name) =~= escaped(path, path.len()) + after);
        assert(mangled(other_path, other_name) =~= escaped(other_path, other_path.len())
            + other_after);
        lemma_escaped_until_dot(path, other_path, after, other_after);
        assert(escaped(name, name.len()) =~= after.drop_first());
        assert(escaped(other_name, other_name.len()) =~= other_after.drop_first());
        let none = Seq::<char>::empty();
        assert(escaped(name, name.len()) + none =~= escaped(name, name.len()));
        assert(escaped(other_name, other_name.len()) + none =~= escaped(
            other_name,
            other_name.len(),
        ));
        lemma_escaped_until_dot(name, other_name, none, none);
    }
}

/// Two globals with names and files of one interner have the same
/// symbol only if they are the same global.
pub proof fn lemma_symbols_tell_globals_apart(names: Seq<Seq<char>>, a: Fqn, b: Fqn)
    requires
        crate::interner::distinct(names),
        (a.file.0.0 as int) < names.len(),
        (a.name.0.0 as int) < names.len(),
        (b.file.0.0 as int) < names.len(),
        (b.name.0.0 as int) < names.len(),
        mangled(name_text(names, a.file.0), name_text(names, a.name.0)) == mangled(
            name_text(names, b.file.0),
            name_text(names, b.name.0),
        ),
    ensures
        a == b,
{
    lemma_mangled_injective(
        name_text(names, a.file.0),
        name_text(names, a.name.0),
        name_text(names, b.file.0),
        name_text(names, b.name.0),
    );
    let fa = a.file.0.0 as int;
    let fb = b.file.0.0 as int;
    let na = a.name.0.0 as int;
    let nb = b.name.0.0 as int;
    if fa < fb {
        assert(names[fa] != names[fb]);
    } else if fb < fa {
        assert(names[fb] != names[fa]);
    }
    if na < nb {
        assert(names[na] != names[nb]);
    } else if nb < na {
        assert(names[nb] != names[na]);
    }
}

fn push_hex_digit(symbol: &mut String, d: u32)
    requires
        d < 16,
    ensures
        final(symbol)@ == old(symbol)@.push(hex_digit(d as nat)),
{
    let c: char = if d < 10 {
        (0x30 + d as u8) as char
    } else {
        (0x61 + (d as u8 - 10)) as char
    };
    push_char(symbol, c);
}

fn push_escaped(symbol: &mut String, text: &str)
    ensures
        final(symbol)@ == old(symbol)@ + escaped(text@, text@.len()),
{
    let chars: Vec<char> = chars_of(text);
    let mut i: usize = 0;
    assert(symbol@ =~= old(symbol)@ + escaped(chars@, 0));
    while i < chars.len()
        invariant
            i <= chars@.len(),
            symbol@ == old(symbol)@ + escaped(chars@, i as nat),
        decreases chars.len() - i,
    {
        let c: char = chars[i];
        let code: u32 = c as u32;
        let ghost before = symbol@;
        if (0x30 <= code && code <= 0x39) || (0x41 <= code && code <= 0x5a) || (0x61 <= code
            && code <= 0x7a) {
            push_char(symbol, c);
        } else if c == '_' {
            push_char(symbol, '_');
            push_char(symbol, '_');
        } else {
            push_char(symbol, '_');
            push_hex_digit(symbol, code / 0x10_0000 % 16);
            push_hex_digit(symbol, code / 0x1_0000 % 16);
            push_hex_digit(symbol, code / 0x1000 % 16);
            push_hex_digit(symbol, code / 0x100 % 16);
            push_hex_digit(symbol, code / 0x10 % 16);
            push_hex_digit(symbol, code % 16);
        }
        assert(symbol@ =~= before + escaped_char(c));
        assert(symbol@ =~= old(symbol)@ + escaped(chars@, (i + 1) as nat));
        i = i + 1;
    }
}

impl Fqn {
    /// The symbol that the global is declared with.
    pub fn to_mangled_name(&self, interner: &Interner) -> (symbol: String)
        ensures
            symbol@ == mangled(
                name_text(interner@, self.file.0),
                name_text(interner@, self.name.0),
            ),
    {
        let mut symbol = String::new();
        let file: String = text_of(interner, self.file.0);
        let name: String = text_of(interner, self.name.0);
        push_escaped(&mut symbol, file.as_str());
        push_char(&mut symbol, '.');
        push_escaped(&mut symbol, name.as_str());
        assert(symbol@ =~= mangled(
            name_text(interner@, self.file.0),
            name_text(interner@, self.name.0),
        ));
        symbol
    }
}

/// The text of `key`; `<unknown>` for a key that the interner lacks.
fn text_of(interner: &Interner, key: Key) -> (text: String)
    ensures
        text@ == name_text(interner@, key),
{
    if (key.0 as usize) < interner.len() {
        String::from_str(interner.lookup(key))
    } else {
        String::from_str("<unknown>")
    }
}

/// How a function is declared to the backend.
#[derive(Debug, Clone, PartialEq, Eq)]
pub struct Declaration {
    pub symbol: String,
    pub linkage: Linkage,
}

/// An `extern` function is imported under its own name; any other
/// function is exported under its mangled name.
pub fn declaration(fqn: Fqn, is_extern: bool, interner: &Interner) -> (decl: Declaration)
    ensures
        decl.linkage == (if is_extern {
            Linkage::Import
        } else {
            Linkage::Export
        }),
        decl.symbol@ == (if is_extern {
            name_text(interner@, fqn.name.0)
        } else {
            mangled(name_text(interner@, fqn.file.0), name_text(interner@, fqn.name.0))
        }),
{
    if is_extern {
        Declaration { symbol: text_of(interner, fqn.name.0), linkage: Linkage::Import }
    } else {
        Declaration { symbol: fqn.to_mangled_name(interner), linkage: Linkage::Export }
    }
}

/// The key of a global in a table: the key of its file in the high 32
/// bits, the key of its name in the low ones.
pub open spec fn fqn_key(fqn: Fqn) -> u64 {
    (fqn.file.0.0 * 0x1_0000_0000 + fqn.name.0.0) as u64
}

/// Two globals have one key only if they are one global.
pub proof fn lemma_fqn_key_injective(a: Fqn, b: Fqn)
    ensures
        fqn_key(a) == fqn_key(b) <==> a == b,
{
}

fn key_of(fqn: Fqn) -> (key: u64)
    ensures
        key == fqn_key(fqn),
{
    fqn.file.0.0 as u64 * 0x1_0000_0000 + fqn.name.0.0 as u64
}

/// The functions that wait to be compiled, and those that are declared.
///
/// The driver takes the next function from the queue, compiles it, and
/// asks for the identifier of every function that the compiled code
/// calls; a function that is asked for the first time is declared and
/// joins the queue.
#[derive(Debug)]
pub struct FunctionQueue {
    waiting: VecDeque<Fqn>,
    declared: FunctionIds,
}

pub struct FunctionQueueView {
    /// The functions that wait to be compiled, first in first out.
    pub waiting: Seq<Fqn>,
    /// The identifiers of the functions that are declared, by the keys of
    /// the functions.
    pub declared: Map<u64, u32>,
}

impl FunctionQueueView {
    /// The identifier that `fqn` is declared with, if it is declared.
    pub open spec fn id_of(self, fqn: Fqn) -> Option<u32> {
        if self.declared.contains_key(fqn_key(fqn)) {
            Some(self.declared[fqn_key(fqn)])
        } else {
            None
        }
    }
}

impl View for FunctionQueue {
    type V = FunctionQueueView;

    closed spec fn view(&self) -> FunctionQueueView {
        FunctionQueueView { waiting: self.waiting@, declared: self.declared@ }
    }
}

impl FunctionQueue {
    /// A queue that holds the entry point, with nothing declared.
    pub fn new(entry_point: Fqn) -> (queue: FunctionQueue)
        ensures
            queue@.waiting == seq![entry_point],
            forall|fqn: Fqn| queue@.id_of(fqn) is None,
    {
        let mut waiting: VecDeque<Fqn> = VecDeque::new();
        waiting.push_back(entry_point);
        let queue = FunctionQueue { waiting, declared: new_function_ids() };
        assert(queue@.waiting =~= seq![entry_point]);
        queue
    }

    /// Takes the function that has waited longest.
    pub fn next(&mut self) -> (fqn: Option<Fqn>)
        ensures
            final(self)@.declared == old(self)@.declared,
            match fqn {
                Some(fqn) => old(self)@.waiting.len() > 0 && fqn == old(self)@.waiting[0]
                    && final(self)@.waiting == old(self)@.waiting.drop_first(),
                None => old(self)@.waiting.len() == 0 && final(self)@.waiting
                    == old(self)@.waiting,
            },
    {
        let fqn: Option<Fqn> = self.waiting.pop_front();
        proof {
            if fqn is Some {
                assert(final(self)@.waiting =~= old(self)@.waiting.drop_first());
            }
        }
        fqn
    }

    /// The identifier that `fqn` is declared with, if it is declared.
    pub fn get(&self, fqn: Fqn) -> (id: Option<u32>)
        ensures
            id == self@.id_of(fqn),
    {
        function_ids_get(&self.declared, key_of(fqn))
    }

    /// Records that `fqn` is declared with the identifier `id`; an
    /// earlier declaration of it gives way.
    pub fn declare(&mut self, fqn: Fqn, id: u32)
        ensures
            final(self)@.waiting == old(self)@.waiting,
            final(self)@.declared == old(self)@.declared.insert(fqn_key(fqn), id),
            final(self)@.id_of(fqn) == Some(id),
            forall|other: Fqn|
                other != fqn ==> final(self)@.id_of(other) == old(self)@.id_of(other),
    {
        function_ids_insert(&mut self.declared, key_of(fqn), id);
        proof {
            assert forall|other: Fqn| other != fqn implies final(self)@.id_of(other) == old(
                self,
            )@.id_of(other) by {
                lemma_fqn_key_injective(other, fqn);
            }
        }
    }

    /// Asks for the identifier of `fqn`, as the compiled code of a caller
    /// does. A function that is declared has its identifier. One that is
    /// not joins the end of the queue, and the caller has to declare it.
    pub fn request(&mut self, fqn: Fqn) -> (id: Option<u32>)
        ensures
            id == old(self)@.id_of(fqn),
            final(self)@.declared == old(self)@.declared,
            final(self)@.waiting == (if id is Some {
                old(self)@.waiting
            } else {
                old(self)@.waiting.push(fqn)
            }),
    {
        let id: Option<u32> = self.get(fqn);
        if id.is_none() {
            self.waiting.push_back(fqn);
        }
        id
    }
}

/// A function that was declared is never queued again: it stays
/// declared whatever is declared after it, so that asking for it leaves
/// the queue as it is.
pub proof fn lemma_declared_not_queued_again(
    queue: FunctionQueueView,
    fqn: Fqn,
    later: FunctionQueueView,
    other: Fqn,
    id: u32,
)
    requires
        queue.id_of(fqn) is Some,
        later.declared == queue.declared.insert(fqn_key(other), id),
    ensures
        later.id_of(fqn) is Some,
{
}

/// The arguments that the linker `gcc` is called with to make the
/// executable `exe_path` from `object_file`: the object file, `-o` with
/// the path of the executable, the flags that the platform needs, and
/// one `-l` flag for each of the libraries `libs`, where any are given.
pub open spec fn link_arguments(
    object_file: Seq<char>,
    exe_path: Seq<char>,
    macos: bool,
    libs: Option<Seq<Seq<char>>>,
) -> Seq<Seq<char>> {
    let platform = if macos {
        seq!["-Xlinker"@, "-ld_classic"@]
    } else {
        Seq::empty()
    };
    let flags = match libs {
        Some(libs) => libs.map_values(|lib: Seq<char>| "-l"@ + lib),
        None => Seq::empty(),
    };
    seq![object_file, "-o"@, exe_path] + platform + flags
}

/// The arguments that the linker is called with.
pub fn linker_arguments(
    object_file: &str,
    exe_path: &str,
    macos: bool,
    libs: Option<&Vec<String>>,
) -> (arguments: Vec<String>)
    ensures
        crate::snippet::texts(arguments@) == link_arguments(
            object_file@,
            exe_path@,
            macos,
            match libs {
                Some(libs) => Some(crate::snippet::texts(libs@)),
                None => None,
            },
        ),
{
    let mut arguments: Vec<String> = Vec::new();
    arguments.push(String::from_str(object_file));
    arguments.push(String::from_str("-o"));
    arguments.push(String::from_str(exe_path));
    if macos {
        arguments.push(String::from_str("-Xlinker"));
        arguments.push(String::from_str("-ld_classic"));
    }
    match libs {
        Some(libs) => {
            let ghost head = crate::snippet::texts(arguments@);
            let ghost flags = |lib: Seq<char>| "-l"@ + lib;
            let mut i: usize = 0;
            assert(head =~= head + crate::snippet::texts(libs@).take(0).map_values(flags));
            while i < libs.len()
                invariant
                    i <= libs@.len(),
                    flags == |lib: Seq<char>| "-l"@ + lib,
                    crate::snippet::texts(arguments@) == head + crate::snippet::texts(libs@).take(
                        i as int,
                    ).map_values(flags),
                decreases libs.len() - i,
            {
                let mut flag = String::from_str("-l");
                flag.append(libs[i].as_str());
                let ghost before = crate::snippet::texts(arguments@);
                arguments.push(flag);
                assert(crate::snippet::texts(arguments@) =~= before.push(flag@));
                assert(crate::snippet::texts(libs@).take(i + 1).map_values(flags)
                    =~= crate::snippet::texts(libs@).take(i as int).map_values(flags).push(
                    flag@,
                ));
                i = i + 1;
            }
            assert(crate::snippet::texts(libs@).take(libs@.len() as int) =~= crate::snippet::texts(
                libs@,
            ));
            assert(crate::snippet::texts(arguments@) =~= link_arguments(
                object_file@,
                exe_path@,
                macos,
                Some(crate::snippet::texts(libs@)),
            ));
        },
        None => {
            assert(crate::snippet::texts(arguments@) =~= link_arguments(
                object_file@,
                exe_path@,
                macos,
                None,
            ));
        },
    }
    arguments
}

/// Whether the driver compiles the body of a function: it does for
/// every function but an extern one, which it leaves to the linker.
pub fn is_compiled(is_extern: bool) -> (yes: bool)
    ensures
        yes == !is_extern,
{
    !is_extern
}

} // verus!
