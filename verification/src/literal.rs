//! The values of literals: integers with digit separators and exponents,
//! and the escape sequences of strings and characters.

use crate::syntax::StringComponent;
use crate::text::{chars_of, push_char};
use crate::text_range::TextRange;
use vstd::prelude::*;
use vstd::string::StringExecFns;

verus! {

/// The decimal digits `0` to `9`, by their code points.
pub open spec fn is_digit(c: char) -> bool {
    0x30 <= c as u32 <= 0x39
}

pub open spec fn digit_value(c: char) -> nat {
    (c as u32 - 0x30) as nat
}

/// The mark that stands between an integer literal's digits and its exponent.
pub open spec fn is_exponent_mark(c: char) -> bool {
    c == 'e' || c == 'E'
}

pub open spec fn all_digits(digits: Seq<char>) -> bool {
    forall|i: int| 0 <= i < digits.len() ==> is_digit(#[trigger] digits[i])
}

/// The number that a sequence of decimal digits denotes.
pub open spec fn decimal(digits: Seq<char>) -> nat
    decreases digits.len(),
{
    if digits.len() == 0 {
        0
    } else {
        decimal(digits.drop_last()) * 10 + digit_value(digits.last())
    }
}

/// The number that `digits` denotes, where it is at least one decimal
/// digit.
pub open spec fn number(digits: Seq<char>) -> Option<nat> {
    if digits.len() > 0 && all_digits(digits) {
        Some(decimal(digits))
    } else {
        None
    }
}

pub open spec fn pow10(exp: nat) -> nat
    decreases exp,
{
    if exp == 0 {
        1
    } else {
        10 * pow10((exp - 1) as nat)
    }
}

/// The position of the first exponent mark in `text` at or after `from`;
/// the length of `text` if there is none.
pub open spec fn mark_from(text: Seq<char>, from: int) -> int
    decreases text.len() - from,
{
    if from >= text.len() {
        text.len() as int
    } else if from >= 0 && is_exponent_mark(text[from]) {
        from
    } else {
        mark_from(text, from + 1)
    }
}

/// The text of an integer literal without its digit separators.
pub open spec fn without_separators(text: Seq<char>) -> Seq<char> {
    text.filter(|c: char| c != '_')
}

/// The value of an integer literal.
///
/// Digit separators `_` do not count. The digits before the first
/// exponent mark are the base; where there is a mark, the digits after it,
/// up to a second mark or the end, are the exponent, and the value is the
/// base times ten to the exponent. There is no value where the base or
/// the exponent is not a number, nor where the value does not fit 64
/// bits. So a base of 0 has the value 0 with any exponent.
pub open spec fn int_literal_value(text: Seq<char>) -> Option<u64> {
    let clean = without_separators(text);
    let mark = mark_from(clean, 0);
    let exponent = if mark == clean.len() {
        Some(0nat)
    } else {
        number(clean.subrange(mark + 1, mark_from(clean, mark + 1)))
    };
    match (number(clean.subrange(0, mark)), exponent) {
        (Some(base), Some(exp)) => if base * pow10(exp) <= u64::MAX {
            Some((base * pow10(exp)) as u64)
        } else {
            None
        },
        _ => None,
    }
}

pub proof fn lemma_pow10_grows(a: nat, b: nat)
    requires
        a <= b,
    ensures
        1 <= pow10(a) <= pow10(b),
    decreases b,
{
    if b == 0 {
    } else if a == b {
        lemma_pow10_grows((a - 1) as nat, (b - 1) as nat);
    } else {
        lemma_pow10_grows(a, (b - 1) as nat);
    }
}

/// Ten to the 20th does not fit 64 bits.
proof fn lemma_pow10_of_20()
    ensures
        pow10(20) > u64::MAX,
{
    reveal_with_fuel(pow10, 21);
}

/// What a run of characters denotes.
enum Parsed {
    /// No number: no character, or one that is no digit.
    NotANumber,
    /// A number above the limit.
    Above,
    /// A number that is not above the limit.
    Value(u64),
}

/// The number that the characters `from..to` of `text` denote, held
/// against the limit `max`.
fn parse_number(text: &Vec<char>, from: usize, to: usize, max: u64) -> (parsed: Parsed)
    requires
        from <= to <= text@.len(),
    ensures
        match parsed {
            Parsed::NotANumber => number(text@.subrange(from as int, to as int)) is None,
            Parsed::Above => number(text@.subrange(from as int, to as int)) matches Some(n) && n
                > max,
            Parsed::Value(n) => number(text@.subrange(from as int, to as int)) == Some(n as nat)
                && n <= max,
        },
{
    let ghost digits = text@.subrange(from as int, to as int);
    if from == to {
        return Parsed::NotANumber;
    }
    let mut acc: u64 = 0;
    let mut over: bool = false;
    let mut i: usize = from;
    while i < to
        invariant
            from <= i <= to <= text@.len(),
            digits == text@.subrange(from as int, to as int),
            all_digits(digits.take(i - from)),
            !over ==> acc == decimal(digits.take(i - from)) && acc <= max,
            over ==> decimal(digits.take(i - from)) > max,
        decreases to - i,
    {
        let c: char = text[i];
        let code: u32 = c as u32;
        proof {
            assert(digits.take(i - from + 1).drop_last() =~= digits.take(i - from));
            assert(digits.take(i - from + 1).last() == c);
        }
        if code < 48 || code > 57 {
            assert(!is_digit(digits[i - from]));
            return Parsed::NotANumber;
        }
        let d: u64 = (code - 48) as u64;
        assert(d == digit_value(c));
        assert(is_digit(c));
        if !over {
            if d > max || acc > (max - d) / 10 {
                over = true;
            } else {
                acc = acc * 10 + d;
            }
        }
        assert(all_digits(digits.take(i - from + 1))) by {
            assert forall|k: int| 0 <= k < i - from + 1 implies is_digit(
                #[trigger] digits.take(i - from + 1)[k],
            ) by {
                if k < i - from {
                    assert(digits.take(i - from)[k] == digits.take(i - from + 1)[k]);
                } else {
                    assert(digits.take(i - from + 1)[k] == c);
                }
            }
        }
        i = i + 1;
    }
    assert(digits.take(to - from) =~= digits);
    if over {
        Parsed::Above
    } else {
        Parsed::Value(acc)
    }
}

/// Ten to the power `exp`, if it fits 64 bits.
fn checked_pow10(exp: u32) -> (value: Option<u64>)
    ensures
        match value {
            Some(n) => n == pow10(exp as nat),
            None => pow10(exp as nat) > u64::MAX,
        },
{
    let mut acc: u64 = 1;
    let mut i: u32 = 0;
    while i < exp
        invariant
            i <= exp,
            acc == pow10(i as nat),
        decreases exp - i,
    {
        if acc > 0xffff_ffff_ffff_ffff / 10 {
            proof {
                lemma_pow10_grows((i + 1) as nat, exp as nat);
            }
            return None;
        }
        acc = acc * 10;
        i = i + 1;
    }
    Some(acc)
}

/// The position of the first exponent mark at or after `from`.
fn find_mark(text: &Vec<char>, from: usize) -> (mark: usize)
    requires
        from <= text@.len(),
    ensures
        mark == mark_from(text@, from as int),
        from <= mark <= text@.len(),
{
    let mut i: usize = from;
    while i < text.len()
        invariant
            from <= i <= text@.len(),
            mark_from(text@, from as int) == mark_from(text@, i as int),
        decreases text.len() - i,
    {
        if text[i] == 'e' || text[i] == 'E' {
            return i;
        }
        i = i + 1;
    }
    i
}

/// The characters of `text` that are no digit separators.
fn strip_separators(text: &Vec<char>) -> (clean: Vec<char>)
    ensures
        clean@ == without_separators(text@),
{
    let mut clean: Vec<char> = Vec::new();
    let mut i: usize = 0;
    while i < text.len()
        invariant
            i <= text@.len(),
            clean@ == without_separators(text@.take(i as int)),
        decreases text.len() - i,
    {
        proof {
            assert(text@.take(i + 1).drop_last() =~= text@.take(i as int));
            reveal(Seq::filter);
        }
        if text[i] != '_' {
            clean.push(text[i]);
        }
        i = i + 1;
    }
    assert(text@.take(text@.len() as int) =~= text@);
    clean
}

/// The value of the integer literal `text`, if it has one.
pub fn parse_int_literal(text: &str) -> (value: Option<u64>)
    ensures
        value == int_literal_value(text@),
{
    let chars: Vec<char> = chars_of(text);
    let clean: Vec<char> = strip_separators(&chars);
    let mark: usize = find_mark(&clean, 0);
    let base: Parsed = parse_number(&clean, 0, mark, 0xffff_ffff_ffff_ffff);
    let ghost base_value = number(clean@.subrange(0, mark as int));
    if mark == clean.len() {
        proof {
            assert(pow10(0) == 1);
            if base_value is Some {
                let n = base_value->0;
                assert(n * pow10(0) == n) by (nonlinear_arith)
                    requires
                        pow10(0) == 1,
                ;
            }
        }
        return match base {
            Parsed::Value(base) => Some(base),
            _ => None,
        };
    }
    let end: usize = find_mark(&clean, mark + 1);
    let exp: Parsed = parse_number(&clean, mark + 1, end, 19);
    let ghost exp_value = number(clean@.subrange(mark + 1, end as int));
    match (base, exp) {
        (Parsed::NotANumber, _) => None,
        (_, Parsed::NotANumber) => None,
        (Parsed::Above, _) => {
            proof {
                lemma_pow10_grows(0, exp_value->0);
                lemma_product_grows(base_value->0, pow10(exp_value->0));
            }
            None
        },
        (Parsed::Value(base), Parsed::Above) => {
            proof {
                lemma_pow10_of_20();
                lemma_pow10_grows(20, exp_value->0);
            }
            zero_or_nothing(base, Ghost(pow10(exp_value->0)))
        },
        (Parsed::Value(base), Parsed::Value(exp)) => {
            match checked_pow10(exp as u32) {
                None => zero_or_nothing(base, Ghost(pow10(exp as nat))),
                Some(power) => {
                    assert(power >= 1) by {
                        lemma_pow10_grows(0, exp as nat);
                    }
                    if base > 0xffff_ffff_ffff_ffff / power {
                        assert(base * power > u64::MAX) by (nonlinear_arith)
                            requires
                                power >= 1,
                                base > 0xffff_ffff_ffff_ffffu64 / power,
                        ;
                        None
                    } else {
                        assert(base * power <= u64::MAX) by (nonlinear_arith)
                            requires
                                power >= 1,
                                base <= 0xffff_ffff_ffff_ffffu64 / power,
                        ;
                        Some(base * power)
                    }
                },
            }
        },
    }
}

/// The value of a literal with the base `base` whose power of ten,
/// `power`, does not fit 64 bits: 0 where the base is 0, and none else.
fn zero_or_nothing(base: u64, Ghost(power): Ghost<nat>) -> (value: Option<u64>)
    requires
        power > u64::MAX,
    ensures
        value == (if base * power <= u64::MAX {
            Some((base * power) as u64)
        } else {
            None
        }),
{
    if base == 0 {
        assert(base * power == 0) by (nonlinear_arith)
            requires
                base == 0,
        ;
        Some(0)
    } else {
        proof {
            lemma_product_grows(power, base as nat);
            assert(base * power == power * base) by (nonlinear_arith);
        }
        None
    }
}

/// A number times a number that is at least 1 is at least the number.
proof fn lemma_product_grows(a: nat, b: nat)
    requires
        b >= 1,
    ensures
        a * b >= a,
{
    assert(a * b >= a) by (nonlinear_arith)
        requires
            b >= 1,
    ;
}

/// The character that the escape sequence `\escaped` stands for.
pub open spec fn escape_value(escaped: char) -> Option<char> {
    if escaped == '0' {
        Some('\0')
    } else if escaped == 'a' {
        Some('\x07')
    } else if escaped == 'b' {
        Some('\x08')
    } else if escaped == 'n' {
        Some('\n')
    } else if escaped == 'f' {
        Some('\x0C')
    } else if escaped == 'r' {
        Some('\r')
    } else if escaped == 't' {
        Some('\t')
    } else if escaped == 'v' {
        Some('\x0B')
    } else if escaped == 'e' {
        Some('\x1B')
    } else if escaped == '\'' {
        Some('\'')
    } else if escaped == '"' {
        Some('"')
    } else if escaped == '\\' {
        Some('\\')
    } else {
        None
    }
}

/// The character that the escape sequence `\escaped` stands for, if it
/// is one of `\0 \a \b \n \f \r \t \v \e \' \" \\`.
pub fn unescape(escaped: char) -> (value: Option<char>)
    ensures
        value == escape_value(escaped),
{
    if escaped == '0' {
        Some('\0')  // null
    } else if escaped == 'a' {
        Some('\x07')  // bell
    } else if escaped == 'b' {
        Some('\x08')  // backspace
    } else if escaped == 'n' {
        Some('\n')  // line feed
    } else if escaped == 'f' {
        Some('\x0C')  // form feed
    } else if escaped == 'r' {
        Some('\r')  // carriage return
    } else if escaped == 't' {
        Some('\t')  // horizontal tab
    } else if escaped == 'v' {
        Some('\x0B')  // vertical tab
    } else if escaped == 'e' {
        Some('\x1B')  // escape
    } else if escaped == '\'' {
        Some('\'')
    } else if escaped == '"' {
        Some('"')
    } else if escaped == '\\' {
        Some('\\')
    } else {
        None
    }
}

/// The text that one component of a literal stands for: its contents, or
/// the character of its escape sequence; nothing for an escape sequence
/// that stands for no character.
pub open spec fn component_text(component: StringComponent) -> Seq<char> {
    match component {
        StringComponent::Escape { escaped, .. } => match escape_value(escaped) {
            Some(c) => seq![c],
            None => Seq::empty(),
        },
        StringComponent::Contents { text } => text@,
    }
}

/// The text that the first `n` components of a literal stand for.
pub open spec fn literal_text(components: Seq<StringComponent>, n: nat) -> Seq<char>
    decreases n,
{
    if n == 0 || n > components.len() {
        Seq::empty()
    } else {
        literal_text(components, (n - 1) as nat) + component_text(components[n - 1])
    }
}

/// The ranges of the escape sequences among the first `n` components
/// that stand for no character, in order.
pub open spec fn invalid_escapes(components: Seq<StringComponent>, n: nat) -> Seq<TextRange>
    decreases n,
{
    if n == 0 || n > components.len() {
        Seq::empty()
    } else {
        let before = invalid_escapes(components, (n - 1) as nat);
        match components[n - 1] {
            StringComponent::Escape { escaped, range } => if escape_value(escaped) is None {
                before.push(range)
            } else {
                before
            },
            StringComponent::Contents { .. } => before,
        }
    }
}

/// The number of characters that the first `n` components of a literal
/// are written with, an escape sequence counted as one.
pub open spec fn written_len(components: Seq<StringComponent>, n: nat) -> nat
    decreases n,
{
    if n == 0 || n > components.len() {
        0
    } else {
        written_len(components, (n - 1) as nat) + match components[n - 1] {
            StringComponent::Escape { .. } => 1nat,
            StringComponent::Contents { text } => text@.len(),
        }
    }
}

/// What a string or character literal holds.
pub struct Unescaped {
    /// The text that the literal stands for.
    pub text: String,
    /// The ranges of the escape sequences that stand for no character.
    pub invalid: Vec<TextRange>,
    /// The number of characters that the literal is written with, an
    /// escape sequence counted as one; 2 stands for 2 or more.
    pub written: u8,
}

/// Resolves the escape sequences of a literal.
pub fn unescape_components(components: &Vec<StringComponent>) -> (result: Unescaped)
    ensures
        result.text@ == literal_text(components@, components@.len()),
        result.invalid@ == invalid_escapes(components@, components@.len()),
        result.written == (if written_len(components@, components@.len()) >= 2 {
            2nat
        } else {
            written_len(components@, components@.len())
        }),
{
    let mut text = String::new();
    let mut invalid: Vec<TextRange> = Vec::new();
    let mut written: u8 = 0;
    let mut i: usize = 0;
    while i < components.len()
        invariant
            i <= components@.len(),
            text@ == literal_text(components@, i as nat),
            invalid@ == invalid_escapes(components@, i as nat),
            written == (if written_len(components@, i as nat) >= 2 {
                2nat
            } else {
                written_len(components@, i as nat)
            }),
        decreases components.len() - i,
    {
        match &components[i] {
            StringComponent::Escape { escaped, range } => {
                if written < 2 {
                    written = written + 1;
                }
                match unescape(*escaped) {
                    Some(c) => {
                        push_char(&mut text, c);
                        assert(text@ =~= literal_text(components@, i as nat) + seq![c]);
                    },
                    None => {
                        invalid.push(*range);
                        assert(text@ =~= literal_text(components@, i as nat) + Seq::<
                            char,
                        >::empty());
                    },
                }
            },
            StringComponent::Contents { text: contents } => {
                let n: usize = contents.as_str().unicode_len();
                if n >= 2 {
                    written = 2;
                } else if n == 1 && written < 2 {
                    written = written + 1;
                }
                text.append(contents.as_str());
            },
        }
        i = i + 1;
    }
    Unescaped { text, invalid, written }
}

} // verus!
