//! Lines of a source text: where each one starts, and what it holds.

use crate::text::{chars_of, push_char};
use vstd::prelude::*;
use vstd::string::StringSliceAdditionalSpecFns;

verus! {

/// The number of a line, counted from 0.
#[derive(Clone, Copy, Debug, PartialEq, Eq, Structural)]
pub struct LineNr(pub u32);

/// The number of a column, in bytes, counted from 0.
#[derive(Clone, Copy, Debug, PartialEq, Eq, Structural)]
pub struct ColNr(pub u32);

/// The offsets at which the lines of a text start.
#[derive(Clone, Debug)]
pub struct LineIndex {
    line_starts: Vec<u32>,
}

/// The offsets at which lines start among the first `n` bytes of a text:
/// 0, and the offset after each line feed.
pub open spec fn line_starts(bytes: Seq<u8>, n: nat) -> Seq<u32>
    decreases n,
{
    if n == 0 || n > bytes.len() {
        seq![0u32]
    } else if bytes[n - 1] == 0x0au8 {
        line_starts(bytes, (n - 1) as nat).push(n as u32)
    } else {
        line_starts(bytes, (n - 1) as nat)
    }
}

/// The line that `offset` is on: the last of the first `n` lines that
/// starts at or before the offset.
pub open spec fn line_of(starts: Seq<u32>, offset: u32, n: nat) -> nat
    decreases n,
{
    if n <= 1 || n > starts.len() {
        0
    } else if starts[n - 1] <= offset {
        (n - 1) as nat
    } else {
        line_of(starts, offset, (n - 1) as nat)
    }
}

impl View for LineIndex {
    type V = Seq<u32>;

    closed spec fn view(&self) -> Seq<u32> {
        self.line_starts@
    }
}

impl LineIndex {
    /// The index has a first line, and that starts at 0.
    pub open spec fn wf(&self) -> bool {
        1 <= self@.len() <= u32::MAX && self@[0] == 0
    }

    /// The index of the lines of `text`.
    pub fn new(text: &str) -> (index: LineIndex)
        requires
            text.spec_bytes().len() < u32::MAX,
        ensures
            index@ == line_starts(text.spec_bytes(), text.spec_bytes().len()),
            index.wf(),
    {
        let bytes: &[u8] = text.as_bytes();
        let mut starts: Vec<u32> = Vec::new();
        starts.push(0);
        let mut i: usize = 0;
        while i < bytes.len()
            invariant
                i <= bytes@.len() < u32::MAX,
                starts@ == line_starts(bytes@, i as nat),
                1 <= starts@.len() <= i + 1,
                starts@[0] == 0,
            decreases bytes.len() - i,
        {
            if bytes[i] == 0x0a {
                starts.push((i + 1) as u32);
            }
            i = i + 1;
        }
        LineIndex { line_starts: starts }
    }

    /// The line and the column of the byte at `offset`.
    pub fn line_col(&self, offset: u32) -> (position: (LineNr, ColNr))
        requires
            self.wf(),
        ensures
            position.0.0 == line_of(self@, offset, self@.len()),
            (position.0.0 as int) < self@.len(),
            position.1.0 == offset - self@[position.0.0 as int],
    {
        let mut i: usize = self.line_starts.len();
        while i > 1
            invariant
                self.wf(),
                1 <= i <= self@.len(),
                line_of(self@, offset, self@.len()) == line_of(self@, offset, i as nat),
            decreases i,
        {
            if self.line_starts[i - 1] <= offset {
                return (LineNr((i - 1) as u32), ColNr(offset - self.line_starts[i - 1]));
            }
            i = i - 1;
        }
        (LineNr(0), ColNr(offset))
    }
}

pub open spec fn is_line_feed(c: char) -> bool {
    c == '\n'
}

/// The position of the first line feed in `text` at or after `from`;
/// the length of `text` if there is none.
pub open spec fn line_end(text: Seq<char>, from: int) -> int
    decreases text.len() - from,
{
    if from >= text.len() {
        text.len() as int
    } else if from >= 0 && is_line_feed(text[from]) {
        from
    } else {
        line_end(text, from + 1)
    }
}

/// The line `text[from..end]` without the carriage return at its end,
/// where the line ends in a carriage return and a line feed.
pub open spec fn line_text(text: Seq<char>, from: int, end: int) -> Seq<char> {
    if from < end < text.len() && text[end - 1] == '\r' {
        text.subrange(from, end - 1)
    } else {
        text.subrange(from, end)
    }
}

/// The lines of `text` from the offset `from` on. A line ends at a line
/// feed, or at a carriage return and a line feed, or at the end of the
/// text; the text after the last line feed is a line unless it is empty.
pub open spec fn lines_from(text: Seq<char>, from: int) -> Seq<Seq<char>>
    decreases text.len() - from,
{
    if from < 0 || from >= text.len() {
        Seq::empty()
    } else {
        let end = line_end(text, from);
        if from <= end < text.len() {
            seq![line_text(text, from, end)] + lines_from(text, end + 1)
        } else {
            seq![line_text(text, from, end)]
        }
    }
}

/// The lines of `text`.
pub open spec fn text_lines(text: Seq<char>) -> Seq<Seq<char>> {
    lines_from(text, 0)
}

pub proof fn lemma_line_end_bounds(text: Seq<char>, from: int)
    requires
        0 <= from <= text.len(),
    ensures
        from <= line_end(text, from) <= text.len(),
    decreases text.len() - from,
{
    if from < text.len() && !is_line_feed(text[from]) {
        lemma_line_end_bounds(text, from + 1);
    }
}

/// The lines of `text`.
pub fn lines_of(text: &str) -> (lines: Vec<String>)
    ensures
        lines@.len() == text_lines(text@).len(),
        forall|i: int| 0 <= i < lines@.len() ==> (#[trigger] lines@[i])@ == text_lines(text@)[i],
{
    let chars: Vec<char> = chars_of(text);
    let mut lines: Vec<String> = Vec::new();
    let mut from: usize = 0;
    assert(Seq::<Seq<char>>::empty() + lines_from(chars@, 0) =~= lines_from(chars@, 0));
    while from < chars.len()
        invariant
            from <= chars@.len(),
            chars@ == text@,
            Seq::new(lines@.len(), |i: int| lines@[i]@) + lines_from(chars@, from as int)
                == text_lines(text@),
        decreases chars.len() - from,
    {
        let mut end: usize = from;
        while end < chars.len() && chars[end] != '\n'
            invariant
                from <= end <= chars@.len(),
                line_end(chars@, from as int) == line_end(chars@, end as int),
            decreases chars.len() - end,
        {
            end = end + 1;
        }
        let stop: usize = if from < end && end < chars.len() && chars[end - 1] == '\r' {
            end - 1
        } else {
            end
        };
        let mut line = String::new();
        let mut k: usize = from;
        assert(line@ =~= chars@.subrange(from as int, from as int));
        while k < stop
            invariant
                from <= k <= stop <= chars@.len(),
                line@ == chars@.subrange(from as int, k as int),
            decreases stop - k,
        {
            push_char(&mut line, chars[k]);
            assert(line@ =~= chars@.subrange(from as int, k + 1));
            k = k + 1;
        }
        proof {
            let before = Seq::new(lines@.len(), |i: int| lines@[i]@);
            let after = Seq::new(lines@.len() + 1, |i: int| lines@.push(line)[i]@);
            assert(after =~= before.push(line@));
            assert(line@ == line_text(chars@, from as int, end as int));
            if end < chars@.len() {
                assert(before.push(line@) + lines_from(chars@, end + 1) =~= before + lines_from(
                    chars@,
                    from as int,
                ));
            } else {
                assert(before.push(line@) + lines_from(chars@, end as int) =~= before
                    + lines_from(chars@, from as int));
            }
        }
        lines.push(line);
        from = if end < chars.len() {
            end + 1
        } else {
            end
        };
    }
    proof {
        let shown = Seq::new(lines@.len(), |i: int| lines@[i]@);
        assert(shown + lines_from(chars@, from as int) =~= shown);
    }
    lines
}

} // verus!
