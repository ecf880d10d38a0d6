//! The lines that show a diagnostic: its message, the place it points
//! at, and the source lines there with marks under them.

use crate::diagnostics::{
    count_digits, digit_count, Diagnostic, DiagnosticOrigin, Severity, SyntaxErrorKind,
};
use crate::interner::Interner;
use crate::line_index::{line_of, lines_of, text_lines, ColNr, LineIndex, LineNr};
use crate::show::{decimal_text, push_decimal, push_spaces, spaces};
use crate::text::push_char;
use crate::text_range::TextRange;
use crate::ty::{arena_types, ResolvedTy};
use la_arena::Arena;
use vstd::prelude::*;
use vstd::string::StringExecFns;

verus! {

/// The character `c`, `n` times.
pub open spec fn repeated(c: char, n: nat) -> Seq<char> {
    Seq::new(n, |i: int| c)
}

/// Appends the character `c`, `n` times.
fn push_repeated(text: &mut String, c: char, n: u64)
    ensures
        final(text)@ == old(text)@ + repeated(c, n as nat),
{
    let mut i: u64 = 0;
    assert(text@ =~= old(text)@ + repeated(c, 0));
    while i < n
        invariant
            i <= n,
            text@ == old(text)@ + repeated(c, i as nat),
        decreases n - i,
    {
        push_char(text, c);
        assert(text@ =~= old(text)@ + repeated(c, (i + 1) as nat));
        i = i + 1;
    }
}

/// Of two numbers the greater has at least as many digits.
pub proof fn lemma_digit_count_monotone(a: nat, b: nat, base: nat)
    requires
        a <= b,
    ensures
        digit_count(a, base) <= digit_count(b, base),
    decreases b,
{
    if base >= 2 && b >= base && a >= base {
        assert(a / base <= b / base && b / base < b) by (nonlinear_arith)
            requires
                a <= b,
                base >= 2,
                b >= base,
        ;
        lemma_digit_count_monotone(a / base, b / base, base);
    }
}

/// Where a snippet points: the lines and columns, counted from 0, of
/// the first and of the last byte of the range, and the range's length.
pub struct Place {
    pub start_line: u32,
    pub start_col: u32,
    pub end_line: u32,
    pub end_col: u32,
    pub len: u32,
}

/// The line that says where the snippet is: the file, the line and the
/// column, both counted from 1, after a margin as wide as `width` digits.
pub open spec fn place_line(filename: Seq<char>, width: nat, place: Place) -> Seq<char> {
    "\x1B[1;90m"@ + spaces(width) + "--> at "@ + filename + ":"@ + decimal_text(
        (place.start_line + 1) as nat,
    ) + ":"@ + decimal_text((place.start_col + 1) as nat)
}

/// The empty line under it.
pub open spec fn blank_line(width: nat) -> Seq<char> {
    "\x1B[1;90m"@ + spaces(width) + " | "@
}

/// The lines for a range within one source line: where it is, an empty
/// line, the source line with its number, and the marks under the range.
pub open spec fn single_line_snippet(
    filename: Seq<char>,
    lines: Seq<Seq<char>>,
    place: Place,
) -> Seq<Seq<char>> {
    let width = digit_count((place.start_line + 1) as nat, 10);
    seq![
        place_line(filename, width, place),
        blank_line(width),
        "\x1B[1;90m"@ + decimal_text((place.start_line + 1) as nat) + " | "@ + "\x1B[0m"@
            + lines[place.start_line as int],
        "\x1B[1;90m"@ + spaces(width) + " | "@ + spaces(place.start_col as nat) + "\x1B[1;93m"@
            + repeated('^', place.len as nat) + "\x1B[0m"@,
    ]
}

/// A source line between the first and the last line of a range, with
/// its number and a bar at its left.
pub open spec fn middle_line(lines: Seq<Seq<char>>, width: nat, num: nat) -> Seq<char> {
    "\x1B[1;90m"@ + decimal_text(num + 1) + spaces((width - digit_count(num + 1, 10)) as nat)
        + " | "@ + "\x1B[1;93m"@ + "| "@ + "\x1B[0m"@ + lines[num as int]
}

/// The source lines `from..to`, as middle lines.
pub open spec fn middle_lines(lines: Seq<Seq<char>>, width: nat, from: nat, to: nat) -> Seq<
    Seq<char>,
>
    decreases to,
{
    if to <= from {
        Seq::empty()
    } else {
        middle_lines(lines, width, from, (to - 1) as nat).push(
            middle_line(lines, width, (to - 1) as nat),
        )
    }
}

/// The lines for a range over several source lines: where it is, an
/// empty line, the first source line, a mark under its start, the
/// source lines between, the last source line, and a mark under the end.
pub open spec fn multi_line_snippet(
    filename: Seq<char>,
    lines: Seq<Seq<char>>,
    place: Place,
) -> Seq<Seq<char>> {
    let width = digit_count((place.end_line + 1) as nat, 10);
    seq![
        place_line(filename, width, place),
        blank_line(width),
        "\x1B[1;90m"@ + decimal_text((place.start_line + 1) as nat) + spaces(
            (width - digit_count((place.start_line + 1) as nat, 10)) as nat,
        ) + " | "@ + "\x1B[1;93m"@ + "  "@ + "\x1B[0m"@ + lines[place.start_line as int],
        "\x1B[1;90m"@ + spaces(width) + " | "@ + "\x1B[1;93m"@ + " "@ + repeated(
            '_',
            (place.start_col + 1) as nat,
        ) + "^"@,
    ] + middle_lines(lines, width, (place.start_line + 1) as nat, place.end_line as nat) + seq![
        "\x1B[1;90m"@ + decimal_text((place.end_line + 1) as nat) + " | "@ + "\x1B[1;93m"@
            + "| "@ + "\x1B[0m"@ + lines[place.end_line as int],
        "\x1B[1;90m"@ + spaces(width) + " | "@ + "\x1B[1;93m"@ + "|"@ + repeated(
            '_',
            (place.end_col + 1) as nat,
        ) + "^"@ + "\x1B[0m"@,
    ]
}

/// The lines that show the source at `place`.
pub open spec fn snippet(filename: Seq<char>, lines: Seq<Seq<char>>, place: Place) -> Seq<
    Seq<char>,
> {
    if place.start_line == place.end_line {
        single_line_snippet(filename, lines, place)
    } else {
        multi_line_snippet(filename, lines, place)
    }
}

/// The texts of `lines`.
pub open spec fn texts(lines: Seq<String>) -> Seq<Seq<char>> {
    Seq::new(lines.len(), |i: int| lines[i]@)
}

fn push_place_line(lines: &mut Vec<String>, filename: &str, width: usize, place: &Place)
    requires
        place.start_line < u32::MAX,
    ensures
        texts(final(lines)@) == texts(old(lines)@).push(
            place_line(filename@, width as nat, *place),
        ),
{
    let mut line = String::new();
    line.append("\x1B[1;90m");
    push_spaces(&mut line, width as u64);
    line.append("--> at ");
    line.append(filename);
    line.append(":");
    push_decimal(&mut line, place.start_line as u64 + 1);
    line.append(":");
    push_decimal(&mut line, place.start_col as u64 + 1);
    assert(line@ =~= place_line(filename@, width as nat, *place));
    lines.push(line);
    assert(texts(lines@) =~= texts(old(lines)@).push(place_line(filename@, width as nat, *place)));
}

fn push_blank_line(lines: &mut Vec<String>, width: usize)
    ensures
        texts(final(lines)@) == texts(old(lines)@).push(blank_line(width as nat)),
{
    let mut line = String::new();
    line.append("\x1B[1;90m");
    push_spaces(&mut line, width as u64);
    line.append(" | ");
    assert(line@ =~= blank_line(width as nat));
    lines.push(line);
    assert(texts(lines@) =~= texts(old(lines)@).push(blank_line(width as nat)));
}

/// Appends the lines that show the source at the given place to `lines`.
pub fn input_snippet(
    filename: &str,
    input: &str,
    start_line: LineNr,
    start_col: ColNr,
    end_line: LineNr,
    end_col: ColNr,
    range: TextRange,
    lines: &mut Vec<String>,
)
    requires
        range.wf(),
        start_line.0 <= end_line.0 < u32::MAX,
        (end_line.0 as int) < text_lines(input@).len(),
    ensures
        texts(final(lines)@) == texts(old(lines)@) + snippet(
            filename@,
            text_lines(input@),
            Place {
                start_line: start_line.0,
                start_col: start_col.0,
                end_line: end_line.0,
                end_col: end_col.0,
                len: (range.end - range.start) as u32,
            },
        ),
{
    let place = Place {
        start_line: start_line.0,
        start_col: start_col.0,
        end_line: end_line.0,
        end_col: end_col.0,
        len: range.len(),
    };
    let file_lines: Vec<String> = lines_of(input);
    let ghost source = text_lines(input@);
    let ghost before = texts(lines@);
    if place.start_line == place.end_line {
        let width: usize = count_digits(place.start_line + 1, 10);
        push_place_line(lines, filename, width, &place);
        push_blank_line(lines, width);

        let mut line = String::new();
        line.append("\x1B[1;90m");
        push_decimal(&mut line, place.start_line as u64 + 1);
        line.append(" | ");
        line.append("\x1B[0m");
        line.append(file_lines[place.start_line as usize].as_str());
        assert(line@ =~= single_line_snippet(filename@, source, place)[2]);
        let ghost third = texts(lines@);
        lines.push(line);
        assert(texts(lines@) =~= third.push(line@));

        let mut marks = String::new();
        marks.append("\x1B[1;90m");
        push_spaces(&mut marks, width as u64);
        marks.append(" | ");
        push_spaces(&mut marks, place.start_col as u64);
        marks.append("\x1B[1;93m");
        push_repeated(&mut marks, '^', place.len as u64);
        marks.append("\x1B[0m");
        assert(marks@ =~= single_line_snippet(filename@, source, place)[3]);
        let ghost fourth = texts(lines@);
        lines.push(marks);
        assert(texts(lines@) =~= fourth.push(marks@));
        assert(texts(lines@) =~= before + snippet(filename@, source, place));
        return ;
    }
    // a range over several lines

    let width: usize = count_digits(place.end_line + 1, 10);
    let ghost w = width as nat;
    push_place_line(lines, filename, width, &place);
    push_blank_line(lines, width);

    // the first line of the range
    let first_width: usize = count_digits(place.start_line + 1, 10);
    proof {
        lemma_digit_count_monotone((place.start_line + 1) as nat, (place.end_line + 1) as nat, 10);
    }
    let mut first = String::new();
    first.append("\x1B[1;90m");
    push_decimal(&mut first, place.start_line as u64 + 1);
    push_spaces(&mut first, (width - first_width) as u64);
    first.append(" | ");
    first.append("\x1B[1;93m");
    first.append("  ");
    first.append("\x1B[0m");
    first.append(file_lines[place.start_line as usize].as_str());
    assert(first@ =~= multi_line_snippet(filename@, source, place)[2]);
    let ghost third = texts(lines@);
    lines.push(first);
    assert(texts(lines@) =~= third.push(first@));

    // the mark under its start
    let mut arrow = String::new();
    arrow.append("\x1B[1;90m");
    push_spaces(&mut arrow, width as u64);
    arrow.append(" | ");
    arrow.append("\x1B[1;93m");
    arrow.append(" ");
    push_repeated(&mut arrow, '_', place.start_col as u64 + 1);
    arrow.append("^");
    assert(arrow@ =~= multi_line_snippet(filename@, source, place)[3]);
    let ghost fourth = texts(lines@);
    lines.push(arrow);
    assert(texts(lines@) =~= fourth.push(arrow@));

    let ghost head = texts(lines@);
    let mut num: u32 = place.start_line + 1;
    assert(head =~= head + middle_lines(source, w, (place.start_line + 1) as nat, num as nat));
    while num < place.end_line
        invariant
            place.start_line + 1 <= num <= place.end_line < u32::MAX,
            (place.end_line as int) < source.len(),
            source.len() == file_lines@.len(),
            forall|i: int|
                0 <= i < file_lines@.len() ==> (#[trigger] file_lines@[i])@ == source[i],
            width == digit_count((place.end_line + 1) as nat, 10),
            w == width,
            texts(lines@) == head + middle_lines(
                source,
                w,
                (place.start_line + 1) as nat,
                num as nat,
            ),
        decreases place.end_line - num,
    {
        let num_width: usize = count_digits(num + 1, 10);
        proof {
            lemma_digit_count_monotone((num + 1) as nat, (place.end_line + 1) as nat, 10);
        }
        let mut middle = String::new();
        middle.append("\x1B[1;90m");
        push_decimal(&mut middle, num as u64 + 1);
        push_spaces(&mut middle, (width - num_width) as u64);
        middle.append(" | ");
        middle.append("\x1B[1;93m");
        middle.append("| ");
        middle.append("\x1B[0m");
        middle.append(file_lines[num as usize].as_str());
        assert(middle@ =~= middle_line(source, w, num as nat));
        let ghost so_far = texts(lines@);
        lines.push(middle);
        assert(texts(lines@) =~= so_far.push(middle@));
        num = num + 1;
    }
    let mut last = String::new();
    last.append("\x1B[1;90m");
    push_decimal(&mut last, place.end_line as u64 + 1);
    last.append(" | ");
    last.append("\x1B[1;93m");
    last.append("| ");
    last.append("\x1B[0m");
    last.append(file_lines[place.end_line as usize].as_str());
    let ghost so_far = texts(lines@);
    lines.push(last);
    assert(texts(lines@) =~= so_far.push(last@));

    let mut end = String::new();
    end.append("\x1B[1;90m");
    push_spaces(&mut end, width as u64);
    end.append(" | ");
    end.append("\x1B[1;93m");
    end.append("|");
    push_repeated(&mut end, '_', place.end_col as u64 + 1);
    end.append("^");
    end.append("\x1B[0m");
    let ghost so_far2 = texts(lines@);
    lines.push(end);
    assert(texts(lines@) =~= so_far2.push(end@));
    proof {
        let want = multi_line_snippet(filename@, source, place);
        let middles = middle_lines(
            source,
            w,
            (place.start_line + 1) as nat,
            place.end_line as nat,
        );
        assert(last@ =~= want[4 + middles.len() as int]);
        assert(end@ =~= want[4 + middles.len() as int + 1]);
        assert(texts(lines@) =~= before + want);
    }
}

/// The first line of a shown diagnostic: how severe it is, and its message.
pub open spec fn title_line(severity: Severity, message: Seq<char>) -> Seq<char> {
    (match severity {
        Severity::Warning => "\x1B[1;93m"@ + "warning"@,
        Severity::Error => "\x1B[1;91m"@ + "error"@,
    }) + "\x1B[1;97m"@ + ": "@ + message
}

impl Diagnostic {
    /// Where the diagnostic points in a text with the lines `index`.
    pub open spec fn place(&self, index: Seq<u32>) -> Place {
        let range = self@.range();
        let start_line = line_of(index, range.start, index.len());
        let last = (range.end - 1) as u32;
        let end_line = line_of(index, last, index.len());
        Place {
            start_line: start_line as u32,
            start_col: (range.start - index[start_line as int]) as u32,
            end_line: end_line as u32,
            end_col: (last - index[end_line as int]) as u32,
            len: (range.end - range.start) as u32,
        }
    }

    /// The lines that show the diagnostic: its severity and message, then
    /// the source that it points at. The range of the diagnostic must
    /// hold at least one byte, and lie in lines that `input` has.
    pub fn display(
        &self,
        filename: &str,
        input: &str,
        resolved_arena: &Arena<ResolvedTy>,
        interner: &Interner,
        line_index: &LineIndex,
    ) -> (lines: Vec<String>)
        requires
            line_index.wf(),
            self@.range().wf(),
            self@.range().end >= 1,
            self@ matches DiagnosticOrigin::Syntax(e) ==> (e.kind matches SyntaxErrorKind::Missing {
                offset,
            } ==> offset < u32::MAX),
            self.place(line_index@).start_line <= self.place(line_index@).end_line < u32::MAX,
            (self.place(line_index@).end_line as int) < text_lines(input@).len(),
        ensures
            texts(lines@) == seq![
                title_line(
                    self@.severity(),
                    self@.message(arena_types(*resolved_arena), interner@),
                ),
            ] + snippet(filename@, text_lines(input@), self.place(line_index@)),
    {
        let range: TextRange = self.range();
        let (start_line, start_col) = line_index.line_col(range.start());
        // the end of a range is exclusive, the end of the snippet inclusive
        let (end_line, end_col) = line_index.line_col(range.end() - 1);

        let mut title = String::new();
        match self.severity() {
            Severity::Warning => {
                title.append("\x1B[1;93m");
                title.append("warning");
            },
            Severity::Error => {
                title.append("\x1B[1;91m");
                title.append("error");
            },
        }
        title.append("\x1B[1;97m");
        title.append(": ");
        let message: String = self.message(resolved_arena, interner);
        title.append(message.as_str());
        assert(title@ =~= title_line(
            self@.severity(),
            self@.message(arena_types(*resolved_arena), interner@),
        ));
        let mut lines: Vec<String> = Vec::new();
        lines.push(title);
        assert(texts(lines@) =~= seq![title@]);
        input_snippet(
            filename,
            input,
            start_line,
            start_col,
            end_line,
            end_col,
            range,
            &mut lines,
        );
        lines
    }
}

} // verus!
