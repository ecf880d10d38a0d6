//! Pieces of text that the printers of this library are made of.

use crate::hir::PrimitiveTy;
use crate::host::ends_in_dot_capy;
use crate::text::{chars_of, push_char};
use vstd::prelude::*;
use vstd::string::StringExecFns;

verus! {

/// `n` spaces.
pub open spec fn spaces(n: nat) -> Seq<char> {
    Seq::new(n, |i: int| ' ')
}

/// The character of the decimal digit `d`.
pub open spec fn digit_char(d: nat) -> char {
    ((0x30 + d) as u8) as char
}

/// The number `n` in decimal, without leading zeros.
pub open spec fn decimal_text(n: nat) -> Seq<char>
    decreases n,
{
    if n < 10 {
        seq![digit_char(n)]
    } else {
        decimal_text(n / 10).push(digit_char(n % 10))
    }
}

/// The string `text` as the `Debug` format of Rust writes it: between
/// double quotes, with the characters that need it escaped.
pub uninterp spec fn debug_text(text: Seq<char>) -> Seq<char>;

/// The character `c` as the `Debug` format of Rust writes it: between
/// single quotes, escaped if need be.
pub uninterp spec fn debug_char_text(c: char) -> Seq<char>;

/// `<str as Debug>::fmt`, through `format!`: `text` between double
/// quotes, with its escapes.
#[verifier::external_body]
pub(crate) fn debug_quoted(text: &str) -> (quoted: String)
    ensures
        quoted@ == debug_text(text@),
{
    format!("{:?}", text)
}

/// `<char as Debug>::fmt`, through `format!`: `c` between single quotes,
/// escaped if need be.
#[verifier::external_body]
pub(crate) fn debug_quoted_char(c: char) -> (quoted: String)
    ensures
        quoted@ == debug_char_text(c),
{
    format!("{:?}", c)
}

/// Appends `n` spaces to `text`.
pub fn push_spaces(text: &mut String, n: u64)
    ensures
        final(text)@ == old(text)@ + spaces(n as nat),
{
    let mut i: u64 = 0;
    assert(text@ =~= old(text)@ + spaces(0));
    while i < n
        invariant
            i <= n,
            text@ == old(text)@ + spaces(i as nat),
        decreases n - i,
    {
        push_char(text, ' ');
        assert(text@ =~= old(text)@ + spaces((i + 1) as nat));
        i = i + 1;
    }
}

/// Appends the number `n` in decimal to `text`.
pub fn push_decimal(text: &mut String, n: u64)
    ensures
        final(text)@ == old(text)@ + decimal_text(n as nat),
    decreases n,
{
    if n >= 10 {
        push_decimal(text, n / 10);
    }
    let d: u8 = (n % 10) as u8;
    let c: char = (0x30 + d) as char;
    push_char(text, c);
    assert(c == digit_char((n % 10) as nat));
    if n >= 10 {
        assert(text@ =~= old(text)@ + decimal_text(n as nat));
    } else {
        assert(text@ =~= old(text)@ + decimal_text(n as nat));
    }
}

/// The identifier that names the primitive type `ty`; a weak integer is
/// written `{int}` or `{uint}`.
pub open spec fn primitive_text(ty: PrimitiveTy) -> Seq<char> {
    match ty {
        PrimitiveTy::IInt(width) => if width == u32::MAX {
            "isize"@
        } else if width == 0 {
            "{int}"@
        } else {
            "i"@ + decimal_text(width as nat)
        },
        PrimitiveTy::UInt(width) => if width == u32::MAX {
            "usize"@
        } else if width == 0 {
            "{uint}"@
        } else {
            "u"@ + decimal_text(width as nat)
        },
        PrimitiveTy::Float(width) => if width == 0 {
            "{float}"@
        } else {
            "f"@ + decimal_text(width as nat)
        },
        PrimitiveTy::Bool => "bool"@,
        PrimitiveTy::String => "string"@,
        PrimitiveTy::Char => "char"@,
        PrimitiveTy::Type => "type"@,
        PrimitiveTy::Any => "any"@,
        PrimitiveTy::Void => "void"@,
    }
}

impl PrimitiveTy {
    /// The identifier that names the type.
    pub fn display(&self) -> (text: String)
        ensures
            text@ == primitive_text(*self),
    {
        let mut text = String::new();
        assert(text@ + "isize"@ =~= "isize"@);
        assert(text@ + "usize"@ =~= "usize"@);
        assert(text@ + "{int}"@ =~= "{int}"@);
        assert(text@ + "{uint}"@ =~= "{uint}"@);
        assert(text@ + "{float}"@ =~= "{float}"@);
        assert(text@ + "bool"@ =~= "bool"@);
        assert(text@ + "string"@ =~= "string"@);
        assert(text@ + "char"@ =~= "char"@);
        assert(text@ + "type"@ =~= "type"@);
        assert(text@ + "any"@ =~= "any"@);
        assert(text@ + "void"@ =~= "void"@);
        assert(text@ + "i"@ =~= "i"@);
        assert(text@ + "u"@ =~= "u"@);
        assert(text@ + "f"@ =~= "f"@);
        match *self {
            PrimitiveTy::IInt(width) => {
                if width == u32::MAX {
                    text.append("isize");
                } else if width == 0 {
                    text.append("{int}");
                } else {
                    text.append("i");
                    push_decimal(&mut text, width as u64);
                }
            },
            PrimitiveTy::UInt(width) => {
                if width == u32::MAX {
                    text.append("usize");
                } else if width == 0 {
                    text.append("{uint}");
                } else {
                    text.append("u");
                    push_decimal(&mut text, width as u64);
                }
            },
            PrimitiveTy::Float(width) => {
                if width == 0 {
                    text.append("{float}");
                } else {
                    text.append("f");
                    push_decimal(&mut text, width as u64);
                }
            },
            PrimitiveTy::Bool => {
                text.append("bool");
            },
            PrimitiveTy::String => {
                text.append("string");
            },
            PrimitiveTy::Char => {
                text.append("char");
            },
            PrimitiveTy::Type => {
                text.append("type");
            },
            PrimitiveTy::Any => {
                text.append("any");
            },
            PrimitiveTy::Void => {
                text.append("void");
            },
        }
        text
    }
}

pub open spec fn is_separator(c: char) -> bool {
    c == '/' || c == '\\'
}

/// `path` without the separators at its start.
pub open spec fn without_leading_separators(path: Seq<char>) -> Seq<char>
    decreases path.len(),
{
    if path.len() > 0 && is_separator(path[0]) {
        without_leading_separators(path.drop_first())
    } else {
        path
    }
}

/// `path` as it is written from the directory `root`: without `root` and
/// the separators after it where it starts with `root`, else as it is.
pub open spec fn relative_to(path: Seq<char>, root: Seq<char>) -> Seq<char> {
    if root.len() > 0 && root.len() <= path.len() && path.take(root.len() as int) == root {
        without_leading_separators(path.skip(root.len() as int))
    } else {
        path
    }
}

/// The first `n` characters of `path` with `::` for each separator.
pub open spec fn scoped(path: Seq<char>, n: nat) -> Seq<char>
    decreases n,
{
    if n == 0 || n > path.len() {
        Seq::empty()
    } else if is_separator(path[n - 1]) {
        scoped(path, (n - 1) as nat) + seq![':', ':']
    } else {
        scoped(path, (n - 1) as nat).push(path[n - 1])
    }
}

/// The name of the module in the file at `path`, seen from the directory
/// `root`: the path from there, without `.capy` at its end, with `::`
/// between its components.
pub open spec fn module_text(path: Seq<char>, root: Seq<char>) -> Seq<char> {
    let relative = relative_to(path, root);
    let stem = if ends_in_dot_capy(relative) {
        relative.take(relative.len() - 5)
    } else {
        relative
    };
    scoped(stem, stem.len())
}

/// The name of the module in the file at `path`, seen from `root`.
pub fn module_label(path: &str, root: &str) -> (label: String)
    ensures
        label@ == module_text(path@, root@),
{
    let path: Vec<char> = chars_of(path);
    let root: Vec<char> = chars_of(root);
    let mut start: usize = 0;
    if root.len() > 0 && root.len() <= path.len() {
        let mut same: bool = true;
        let mut k: usize = 0;
        assert(path@.take(0) =~= root@.take(0));
        while k < root.len()
            invariant
                k <= root@.len() <= path@.len(),
                same == (path@.take(k as int) == root@.take(k as int)),
            decreases root.len() - k,
        {
            proof {
                assert(path@.take(k + 1) =~= path@.take(k as int).push(path@[k as int]));
                assert(root@.take(k + 1) =~= root@.take(k as int).push(root@[k as int]));
                if path@.take(k + 1) == root@.take(k + 1) {
                    assert(path@.take(k + 1).drop_last() =~= path@.take(k as int));
                    assert(root@.take(k + 1).drop_last() =~= root@.take(k as int));
                    assert(path@.take(k + 1).last() == path@[k as int]);
                    assert(root@.take(k + 1).last() == root@[k as int]);
                }
            }
            if path[k] != root[k] {
                same = false;
            }
            k = k + 1;
        }
        assert(root@.take(root@.len() as int) =~= root@);
        if same {
            start = root.len();
            assert(path@.skip(start as int).skip(0) =~= path@.skip(start as int));
            while start < path.len() && (path[start] == '/' || path[start] == '\\')
                invariant
                    root@.len() <= start <= path@.len(),
                    without_leading_separators(path@.skip(root@.len() as int))
                        == without_leading_separators(path@.skip(start as int)),
                decreases path.len() - start,
            {
                assert(path@.skip(start as int).drop_first() =~= path@.skip(start + 1));
                start = start + 1;
            }
        }
    }
    let ghost relative = relative_to(path@, root@);
    assert(relative == path@.skip(start as int)) by {
        if start == 0 {
            assert(path@.skip(0) =~= path@);
        }
    }
    let n: usize = path.len() - start;
    let mut end: usize = path.len();
    if n >= 5 && path[end - 5] == '.' && path[end - 4] == 'c' && path[end - 3] == 'a' && path[end
        - 2] == 'p' && path[end - 1] == 'y' {
        assert(relative.subrange(relative.len() - 5, relative.len() as int) =~= seq![
            '.',
            'c',
            'a',
            'p',
            'y',
        ]);
        end = end - 5;
    } else if n >= 5 {
        let ghost tail = relative.subrange(relative.len() - 5, relative.len() as int);
        assert(tail[0] == path@[end - 5]);
        assert(tail[1] == path@[end - 4]);
        assert(tail[2] == path@[end - 3]);
        assert(tail[3] == path@[end - 2]);
        assert(tail[4] == path@[end - 1]);
    }
    let ghost stem = path@.subrange(start as int, end as int);
    assert(stem =~= if ends_in_dot_capy(relative) {
        relative.take(relative.len() - 5)
    } else {
        relative
    });
    let mut label = String::new();
    let mut i: usize = start;
    assert(label@ =~= scoped(stem, 0));
    while i < end
        invariant
            start <= i <= end <= path@.len(),
            stem == path@.subrange(start as int, end as int),
            label@ == scoped(stem, (i - start) as nat),
        decreases end - i,
    {
        let c: char = path[i];
        assert(stem[i - start] == c);
        if c == '/' || c == '\\' {
            push_char(&mut label, ':');
            push_char(&mut label, ':');
            assert(label@ =~= scoped(stem, (i - start) as nat) + seq![':', ':']);
        } else {
            push_char(&mut label, c);
        }
        i = i + 1;
    }
    label
}

} // verus!
