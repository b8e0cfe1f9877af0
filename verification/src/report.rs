//! What an operation hands back for printing: lines of text, each bound for
//! one of the two output streams.

use vstd::prelude::*;

verus! {

/// The stream a line is written to.
#[derive(Clone, Copy, Debug, PartialEq, Eq, Structural)]
pub enum Stream {
    /// Standard output: the results of an operation.
    Stdout,
    /// Standard error: what went wrong.
    Stderr,
}

/// One line of output, without its line terminator.
#[derive(Clone, Debug, PartialEq, Eq)]
pub struct Line {
    pub stream: Stream,
    pub text: String,
}

/// The mathematical value of a [`Line`].
pub ghost struct LineView {
    pub stream: Stream,
    pub text: Seq<char>,
}

impl View for Line {
    type V = LineView;

    open spec fn view(&self) -> LineView {
        LineView { stream: self.stream, text: self.text@ }
    }
}

/// A result line with the given text.
pub open spec fn stdout_line(text: Seq<char>) -> LineView {
    LineView { stream: Stream::Stdout, text }
}

/// A complaint with the given text.
pub open spec fn stderr_line(text: Seq<char>) -> LineView {
    LineView { stream: Stream::Stderr, text }
}

/// The values of the elements of a sequence, element by element.
pub open spec fn views<T: View>(items: Seq<T>) -> Seq<T::V> {
    Seq::new(items.len(), |i: int| items[i]@)
}

/// The texts of the lines bound for `stream`, in order.
pub open spec fn texts_on(lines: Seq<LineView>, stream: Stream) -> Seq<Seq<char>>
    decreases lines.len(),
{
    if lines.len() == 0 {
        Seq::empty()
    } else if lines.last().stream == stream {
        texts_on(lines.drop_last(), stream).push(lines.last().text)
    } else {
        texts_on(lines.drop_last(), stream)
    }
}

impl Line {
    /// A line for standard output.
    pub fn stdout(text: String) -> (line: Line)
        ensures
            line@ == stdout_line(text@),
    {
        Line { stream: Stream::Stdout, text }
    }

    /// A line for standard error.
    pub fn stderr(text: String) -> (line: Line)
        ensures
            line@ == stderr_line(text@),
    {
        Line { stream: Stream::Stderr, text }
    }
}

/// Adding a line at the end adds its text to the texts of its own stream and
/// leaves those of the other stream as they were.
pub proof fn lemma_texts_on_push(lines: Seq<LineView>, line: LineView, stream: Stream)
    ensures
        texts_on(lines.push(line), stream) == if line.stream == stream {
            texts_on(lines, stream).push(line.text)
        } else {
            texts_on(lines, stream)
        },
{
    assert(lines.push(line).drop_last() =~= lines);
}

} // verus!
