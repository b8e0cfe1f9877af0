//! A text file as its reader yields it, line by line, and the showing of it.
//!
//! Each position of the file gives either the text of the line, without its
//! terminator, or a failure of that line alone: the lines after it are still
//! read.

use vstd::prelude::*;
use vstd::string::StringExecFns;

use crate::failure::ErrorKind;
use crate::failure::Failure;
use crate::failure::FailureView;
use crate::report::stderr_line;
use crate::report::stdout_line;
use crate::report::texts_on;
use crate::report::views;
use crate::report::Line;
use crate::report::LineView;
use crate::report::Stream;
use crate::text::join;

verus! {

/// What the reader yields at one line position.
#[derive(Clone, Debug, PartialEq, Eq)]
pub enum LineRead {
    /// The text of the line.
    Text(String),
    /// The line could not be had, most often because it is not text.
    Failed(Failure),
}

/// The mathematical value of a [`LineRead`].
pub ghost enum LineReadView {
    Text(Seq<char>),
    Failed(FailureView),
}

impl View for LineRead {
    type V = LineReadView;

    open spec fn view(&self) -> LineReadView {
        match *self {
            LineRead::Text(text) => LineReadView::Text(text@),
            LineRead::Failed(failure) => LineReadView::Failed(failure@),
        }
    }
}

/// What came of opening a file and reading it to its end.
#[derive(Clone, Debug, PartialEq, Eq)]
pub enum FileRead {
    /// The file was opened; these are its lines in order.
    Opened(Vec<LineRead>),
    /// The file is not there or could not be opened.
    Failed(Failure),
}

/// The mathematical value of a [`FileRead`].
pub ghost enum FileReadView {
    Opened(Seq<LineReadView>),
    Failed(FailureView),
}

impl View for FileRead {
    type V = FileReadView;

    open spec fn view(&self) -> FileReadView {
        match *self {
            FileRead::Opened(lines) => FileReadView::Opened(views(lines@)),
            FileRead::Failed(failure) => FileReadView::Failed(failure@),
        }
    }
}

/// The complaint about a line that could not be read.
pub open spec fn line_complaint(failure: FailureView) -> LineView {
    stderr_line("Error reading line: "@ + failure.detail)
}

/// What showing a file prints for one line position: the text itself, or a
/// complaint about that line.
pub open spec fn shown_line(read: LineReadView) -> LineView {
    match read {
        LineReadView::Text(text) => stdout_line(text),
        LineReadView::Failed(failure) => line_complaint(failure),
    }
}

/// What showing a file prints for its lines: one line of output for each line
/// position, in order.
pub open spec fn shown_lines(reads: Seq<LineReadView>) -> Seq<LineView> {
    Seq::new(reads.len(), |i: int| shown_line(reads[i]))
}

/// The complaint about a file that cannot be shown: that it does not exist,
/// or else that it could not be opened and why.
pub open spec fn unshown_complaint(file: Seq<char>, failure: FailureView) -> LineView {
    if failure.kind == ErrorKind::PathNotFound {
        stderr_line("Error: File '"@ + file + "' does not exist."@)
    } else {
        stderr_line("Error: Unable to open file '"@ + file + "': "@ + failure.detail)
    }
}

/// Everything that showing `file` prints.
pub open spec fn shown_file(file: Seq<char>, read: FileReadView) -> Seq<LineView> {
    match read {
        FileReadView::Opened(reads) => shown_lines(reads),
        FileReadView::Failed(failure) => seq![unshown_complaint(file, failure)],
    }
}

/// The complaint about a line that could not be read.
pub fn complain_of_line(failure: &Failure) -> (line: Line)
    ensures
        line@ == line_complaint(failure@),
{
    Line::stderr(join("Error reading line: ", failure.detail.as_str()))
}

/// What to print for one line position of a file being shown.
pub fn show_line(read: &LineRead) -> (line: Line)
    ensures
        line@ == shown_line(read@),
{
    match read {
        LineRead::Text(text) => Line::stdout(text.clone()),
        LineRead::Failed(failure) => complain_of_line(failure),
    }
}

/// The complaint about a file that cannot be shown.
pub fn complain_of_file(file: &str, failure: &Failure) -> (line: Line)
    ensures
        line@ == unshown_complaint(file@, failure@),
{
    match failure.kind {
        ErrorKind::PathNotFound => {
            let mut text = join("Error: File '", file);
            text.append("' does not exist.");
            Line::stderr(text)
        },
        _ => {
            let mut text = join("Error: Unable to open file '", file);
            text.append("': ");
            text.append(failure.detail.as_str());
            Line::stderr(text)
        },
    }
}

/// Shows a file: every line of it on standard output, a complaint on standard
/// error for each line that could not be read, or a single complaint if the
/// file could not be opened at all.
pub fn show_file(file: &str, read: &FileRead) -> (lines: Vec<Line>)
    ensures
        views(lines@) == shown_file(file@, read@),
{
    let mut lines: Vec<Line> = Vec::new();
    match read {
        FileRead::Failed(failure) => {
            lines.push(complain_of_file(file, failure));
            assert(views(lines@) =~= shown_file(file@, read@));
        },
        FileRead::Opened(reads) => {
            let mut i: usize = 0;
            while i < reads.len()
                invariant
                    i <= reads@.len(),
                    views(lines@) == shown_lines(views(reads@)).take(i as int),
                decreases reads@.len() - i,
            {
                let ghost before = views(lines@);
                lines.push(show_line(&reads[i]));
                assert(views(lines@) =~= before.push(shown_line(reads@[i as int]@)));
                i += 1;
                assert(views(lines@) =~= shown_lines(views(reads@)).take(i as int));
            }
            assert(views(lines@) =~= shown_lines(views(reads@)));
        },
    }
    lines
}

/// A file that cannot be opened shows no content: the one line printed is a
/// complaint on standard error.
pub proof fn lemma_unopened_file_shows_nothing(file: Seq<char>, failure: FailureView)
    ensures
        shown_file(file, FileReadView::Failed(failure)).len() == 1,
        shown_file(file, FileReadView::Failed(failure))[0].stream == Stream::Stderr,
        texts_on(shown_file(file, FileReadView::Failed(failure)), Stream::Stdout).len() == 0,
{
    let lines = shown_file(file, FileReadView::Failed(failure));
    assert(lines.drop_last() =~= Seq::<LineView>::empty());
    reveal_with_fuel(texts_on, 2);
}

} // verus!
