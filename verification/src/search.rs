//! Searching the lines of a file for a literal pattern.
//!
//! Lines are numbered from one, by their position in the file: a line that
//! could not be read still takes its number, so that the numbers printed agree
//! with the file.

use vstd::prelude::*;
use vstd::string::StringExecFns;

use crate::failure::Failure;
use crate::failure::FailureView;
use crate::lines::complain_of_line;
use crate::lines::line_complaint;
use crate::lines::FileRead;
use crate::lines::FileReadView;
use crate::lines::LineRead;
use crate::lines::LineReadView;
use crate::report::lemma_texts_on_push;
use crate::report::stderr_line;
use crate::report::stdout_line;
use crate::report::texts_on;
use crate::report::views;
use crate::report::Line;
use crate::report::LineView;
use crate::report::Stream;
use crate::text::join;
use crate::text::contains;
use crate::text::decimal;
use crate::text::is_substring;
use crate::text::to_decimal;

verus! {

/// A line that holds the pattern: its number, counted from one, and its text.
#[derive(Clone, Debug, PartialEq, Eq)]
pub struct MatchLine {
    pub line_number: usize,
    pub content: String,
}

/// The mathematical value of a [`MatchLine`].
pub ghost struct MatchLineView {
    pub line_number: nat,
    pub content: Seq<char>,
}

impl View for MatchLine {
    type V = MatchLineView;

    open spec fn view(&self) -> MatchLineView {
        MatchLineView { line_number: self.line_number as nat, content: self.content@ }
    }
}

/// Whether a line position holds the pattern: it was read, and the pattern is
/// a contiguous part of its text, character for character.
pub open spec fn line_matches(pattern: Seq<char>, read: LineReadView) -> bool {
    read matches LineReadView::Text(text) && is_substring(text, pattern)
}

/// The matching lines of a file, in the order of the file, each with the
/// number of its position.
pub open spec fn matches_of(pattern: Seq<char>, reads: Seq<LineReadView>) -> Seq<MatchLineView>
    decreases reads.len(),
{
    if reads.len() == 0 {
        Seq::empty()
    } else if line_matches(pattern, reads.last()) {
        matches_of(pattern, reads.drop_last()).push(
            MatchLineView { line_number: reads.len(), content: reads.last()->Text_0 },
        )
    } else {
        matches_of(pattern, reads.drop_last())
    }
}

/// The printed form of a match: the number, a colon, a space, the text.
pub open spec fn match_text(found: MatchLineView) -> Seq<char> {
    decimal(found.line_number) + ": "@ + found.content
}

/// What the search prints for the line at position `number`: the match, a
/// complaint if the line could not be read, or nothing.
pub open spec fn scanned_line(pattern: Seq<char>, number: nat, read: LineReadView) -> Option<
    LineView,
> {
    match read {
        LineReadView::Text(text) => if is_substring(text, pattern) {
            Some(stdout_line(match_text(MatchLineView { line_number: number, content: text })))
        } else {
            None
        },
        LineReadView::Failed(failure) => Some(line_complaint(failure)),
    }
}

/// What the search prints for the lines of a file, in order.
pub open spec fn scanned_lines(pattern: Seq<char>, reads: Seq<LineReadView>) -> Seq<LineView>
    decreases reads.len(),
{
    if reads.len() == 0 {
        Seq::empty()
    } else {
        let front = scanned_lines(pattern, reads.drop_last());
        match scanned_line(pattern, reads.len(), reads.last()) {
            Some(line) => front.push(line),
            None => front,
        }
    }
}

/// The complaint about a file that could not be opened for searching.
pub open spec fn unsearched_complaint(failure: FailureView) -> LineView {
    stderr_line("Error opening file: "@ + failure.detail)
}

/// Everything that searching a file prints.
pub open spec fn searched_file(pattern: Seq<char>, read: FileReadView) -> Seq<LineView> {
    match read {
        FileReadView::Opened(reads) => scanned_lines(pattern, reads),
        FileReadView::Failed(failure) => seq![unsearched_complaint(failure)],
    }
}

/// The state of a search: the pattern and the number of line positions seen.
pub ghost struct MatcherView {
    pub pattern: Seq<char>,
    pub seen: nat,
}

/// A search in progress over the lines of one file.
pub struct Matcher {
    pattern: String,
    seen: usize,
}

impl View for Matcher {
    type V = MatcherView;

    closed spec fn view(&self) -> MatcherView {
        MatcherView { pattern: self.pattern@, seen: self.seen as nat }
    }
}

impl Matcher {
    /// A search for `pattern` that has seen no line yet.
    pub fn new(pattern: &str) -> (matcher: Matcher)
        ensures
            matcher@ == (MatcherView { pattern: pattern@, seen: 0 }),
    {
        Matcher { pattern: pattern.to_owned(), seen: 0 }
    }

    /// The number of line positions seen so far.
    pub fn seen(&self) -> (seen: usize)
        ensures
            seen == self@.seen,
    {
        self.seen
    }

    /// Takes the next line position of the file and returns what to print for
    /// it, if anything. The position is counted whether or not it could be
    /// read.
    pub fn feed(&mut self, read: &LineRead) -> (line: Option<Line>)
        requires
            old(self)@.seen < usize::MAX,
        ensures
            final(self)@ == (MatcherView { seen: old(self)@.seen + 1, ..old(self)@ }),
            match line {
                Some(l) => scanned_line(old(self)@.pattern, old(self)@.seen + 1, read@) == Some(l@),
                None => scanned_line(old(self)@.pattern, old(self)@.seen + 1, read@) is None,
            },
    {
        self.seen = self.seen + 1;
        match read {
            LineRead::Text(text) => {
                if contains(text.as_str(), self.pattern.as_str()) {
                    let found = MatchLine { line_number: self.seen, content: text.clone() };
                    Some(Line::stdout(format_match(&found)))
                } else {
                    None
                }
            },
            LineRead::Failed(failure) => Some(complain_of_line(failure)),
        }
    }
}

/// The printed form of a match.
pub fn format_match(found: &MatchLine) -> (text: String)
    ensures
        text@ == match_text(found@),
{
    let mut text = to_decimal(found.line_number as u64);
    text.append(": ");
    text.append(found.content.as_str());
    text
}

/// The complaint about a file that could not be opened for searching.
pub fn complain_of_search(failure: &Failure) -> (line: Line)
    ensures
        line@ == unsearched_complaint(failure@),
{
    Line::stderr(join("Error opening file: ", failure.detail.as_str()))
}

/// The lines of a file that hold `pattern`, in the order of the file, each
/// with its number counted from one.
pub fn find_matches(pattern: &str, reads: &Vec<LineRead>) -> (found: Vec<MatchLine>)
    ensures
        views(found@) == matches_of(pattern@, views(reads@)),
{
    let mut found: Vec<MatchLine> = Vec::new();
    let mut i: usize = 0;
    assert(views(reads@).take(0) =~= Seq::<LineReadView>::empty());
    assert(views(found@) =~= Seq::<MatchLineView>::empty());
    while i < reads.len()
        invariant
            i <= reads@.len(),
            views(found@) == matches_of(pattern@, views(reads@).take(i as int)),
        decreases reads@.len() - i,
    {
        let ghost before = views(found@);
        let ghost all = views(reads@);
        assert(all.take(i + 1).drop_last() =~= all.take(i as int));
        assert(all.take(i + 1).last() == reads@[i as int]@);
        match &reads[i] {
            LineRead::Text(text) => {
                if contains(text.as_str(), pattern) {
                    let hit = MatchLine { line_number: i + 1, content: text.clone() };
                    found.push(hit);
                    assert(views(found@) =~= before.push(hit@));
                }
            },
            LineRead::Failed(_) => {},
        }
        i += 1;
    }
    assert(views(reads@).take(i as int) =~= views(reads@));
    found
}

/// Searches a file for `pattern`: each line that holds it on standard output
/// with its number, a complaint on standard error for each line that could
/// not be read, or a single complaint if the file could not be opened at all.
pub fn search_file(pattern: &str, read: &FileRead) -> (lines: Vec<Line>)
    ensures
        views(lines@) == searched_file(pattern@, read@),
{
    let mut lines: Vec<Line> = Vec::new();
    match read {
        FileRead::Failed(failure) => {
            lines.push(complain_of_search(failure));
            assert(views(lines@) =~= searched_file(pattern@, read@));
        },
        FileRead::Opened(reads) => {
            let mut matcher = Matcher::new(pattern);
            let mut i: usize = 0;
            assert(views(reads@).take(0) =~= Seq::<LineReadView>::empty());
            assert(views(lines@) =~= Seq::<LineView>::empty());
            while i < reads.len()
                invariant
                    i <= reads@.len(),
                    matcher@ == (MatcherView { pattern: pattern@, seen: i as nat }),
                    views(lines@) == scanned_lines(pattern@, views(reads@).take(i as int)),
                decreases reads@.len() - i,
            {
                let ghost before = views(lines@);
                let ghost all = views(reads@);
                assert(all.take(i + 1).drop_last() =~= all.take(i as int));
                assert(all.take(i + 1).last() == reads@[i as int]@);
                match matcher.feed(&reads[i]) {
                    Some(line) => {
                        lines.push(line);
                        assert(views(lines@) =~= before.push(line@));
                    },
                    None => {},
                }
                i += 1;
            }
            assert(views(reads@).take(i as int) =~= views(reads@));
        },
    }
    lines
}

/// Every match bears the number of a line position of the file, counted from
/// one, and that position holds the pattern and the text reported.
pub proof fn lemma_matches_are_true(pattern: Seq<char>, reads: Seq<LineReadView>, i: int)
    requires
        0 <= i < matches_of(pattern, reads).len(),
    ensures
        1 <= matches_of(pattern, reads)[i].line_number <= reads.len(),
        line_matches(pattern, reads[matches_of(pattern, reads)[i].line_number - 1]),
        reads[matches_of(pattern, reads)[i].line_number - 1] == LineReadView::Text(
            matches_of(pattern, reads)[i].content,
        ),
    decreases reads.len(),
{
    if reads.len() > 0 {
        let front = reads.drop_last();
        if i < matches_of(pattern, front).len() {
            lemma_matches_are_true(pattern, front, i);
        }
    }
}

/// The numbers of the matches are strictly increasing.
pub proof fn lemma_match_numbers_increase(
    pattern: Seq<char>,
    reads: Seq<LineReadView>,
    i: int,
    j: int,
)
    requires
        0 <= i < j < matches_of(pattern, reads).len(),
    ensures
        matches_of(pattern, reads)[i].line_number < matches_of(pattern, reads)[j].line_number,
    decreases reads.len(),
{
    if reads.len() > 0 {
        let front = reads.drop_last();
        if j < matches_of(pattern, front).len() {
            lemma_match_numbers_increase(pattern, front, i, j);
        } else {
            lemma_matches_are_true(pattern, front, i);
        }
    }
}

/// Every line position that holds the pattern is among the matches, under its
/// number.
pub proof fn lemma_every_match_is_found(pattern: Seq<char>, reads: Seq<LineReadView>, k: int)
    requires
        0 <= k < reads.len(),
        line_matches(pattern, reads[k]),
    ensures
        exists|i: int|
            0 <= i < matches_of(pattern, reads).len() && (#[trigger] matches_of(
                pattern,
                reads,
            )[i]).line_number == k + 1,
    decreases reads.len(),
{
    let front = reads.drop_last();
    let all = matches_of(pattern, reads);
    if k == reads.len() - 1 {
        let i = all.len() - 1;
        assert(all[i].line_number == k + 1);
    } else {
        lemma_every_match_is_found(pattern, front, k);
        let i = choose|i: int|
            0 <= i < matches_of(pattern, front).len() && (#[trigger] matches_of(
                pattern,
                front,
            )[i]).line_number == k + 1;
        assert(all[i] == matches_of(pattern, front)[i]);
    }
}

/// What a search prints on standard output is the matches of the file, in
/// order, each in its printed form.
pub proof fn lemma_search_prints_the_matches(pattern: Seq<char>, reads: Seq<LineReadView>)
    ensures
        texts_on(scanned_lines(pattern, reads), Stream::Stdout) == Seq::new(
            matches_of(pattern, reads).len(),
            |i: int| match_text(matches_of(pattern, reads)[i]),
        ),
    decreases reads.len(),
{
    let found = matches_of(pattern, reads);
    let printed = texts_on(scanned_lines(pattern, reads), Stream::Stdout);
    let wanted = Seq::new(found.len(), |i: int| match_text(found[i]));
    if reads.len() == 0 {
        assert(printed =~= wanted);
    } else {
        let front = reads.drop_last();
        lemma_search_prints_the_matches(pattern, front);
        match scanned_line(pattern, reads.len(), reads.last()) {
            Some(line) => {
                lemma_texts_on_push(scanned_lines(pattern, front), line, Stream::Stdout);
            },
            None => {},
        }
        assert(printed =~= wanted);
    }
}

} // verus!
