//! Finding files by name in a directory tree.
//!
//! The walk is depth first and in pre-order: a directory is entered as soon as
//! it is met, before its siblings. The finder decides; the caller reads. The
//! finder hands out a request (open this directory, take the next entry of the
//! innermost open directory), the caller answers with an event, and the finder
//! says which path, if any, to print and what it wants next.

use vstd::prelude::*;
use vstd::string::StringExecFns;

use crate::failure::Failure;
use crate::failure::FailureView;
use crate::report::stderr_line;
use crate::report::stdout_line;
use crate::report::views;
use crate::report::lemma_texts_on_push;
use crate::report::texts_on;
use crate::report::Stream;
use crate::report::Line;
use crate::report::LineView;
use crate::text::join;

verus! {

/// What the caller found when it carried out a request.
#[derive(Clone, Debug, PartialEq, Eq)]
pub enum WalkEvent {
    /// The directory asked for is open and can be listed.
    Opened,
    /// The directory asked for could not be read.
    OpenFailed(Failure),
    /// The next entry of the innermost open directory: its full path, its base
    /// name where it has one, and whether it is a directory.
    Entry { path: String, name: Option<String>, is_dir: bool },
    /// The next entry could not be read.
    EntryFailed(Failure),
    /// The innermost open directory has no more entries and was closed.
    EndOfDir,
}

/// The mathematical value of a [`WalkEvent`].
pub ghost enum WalkEventView {
    Opened,
    OpenFailed(FailureView),
    Entry { path: Seq<char>, name: Option<Seq<char>>, is_dir: bool },
    EntryFailed(FailureView),
    EndOfDir,
}

/// What the finder asks of the caller.
#[derive(Clone, Debug, PartialEq, Eq)]
pub enum WalkRequest {
    /// Open this directory for listing, on top of those already open.
    Open(String),
    /// Take the next entry of the innermost open directory.
    Next,
    /// Nothing more: the walk is over.
    Done,
}

/// The mathematical value of a [`WalkRequest`].
pub ghost enum WalkRequestView {
    Open(Seq<char>),
    Next,
    Done,
}

/// The characters of an optional string.
pub open spec fn optional_text(text: Option<String>) -> Option<Seq<char>> {
    match text {
        Some(t) => Some(t@),
        None => None,
    }
}

impl View for WalkEvent {
    type V = WalkEventView;

    open spec fn view(&self) -> WalkEventView {
        match *self {
            WalkEvent::Opened => WalkEventView::Opened,
            WalkEvent::OpenFailed(failure) => WalkEventView::OpenFailed(failure@),
            WalkEvent::Entry { path, name, is_dir } => WalkEventView::Entry {
                path: path@,
                name: optional_text(name),
                is_dir,
            },
            WalkEvent::EntryFailed(failure) => WalkEventView::EntryFailed(failure@),
            WalkEvent::EndOfDir => WalkEventView::EndOfDir,
        }
    }
}

impl View for WalkRequest {
    type V = WalkRequestView;

    open spec fn view(&self) -> WalkRequestView {
        match *self {
            WalkRequest::Open(path) => WalkRequestView::Open(path@),
            WalkRequest::Next => WalkRequestView::Next,
            WalkRequest::Done => WalkRequestView::Done,
        }
    }
}

/// The state of a walk.
pub ghost struct FinderView {
    /// The base name looked for.
    pub target: Seq<char>,
    /// The request that waits for its answer.
    pub pending: WalkRequestView,
    /// The directories being listed, outermost first.
    pub open: Seq<Seq<char>>,
    /// Whether a match has been met so far.
    pub found: bool,
    /// Why the walk was given up, if it was.
    pub failure: Option<FailureView>,
}

impl FinderView {
    /// The state before anything was read: the root is to be opened.
    pub open spec fn start(root: Seq<char>, target: Seq<char>) -> FinderView {
        FinderView {
            target,
            pending: WalkRequestView::Open(root),
            open: Seq::empty(),
            found: false,
            failure: None,
        }
    }

    /// The state after a failure: every open directory is dropped and nothing
    /// more is asked for.
    pub open spec fn aborted(self, failure: FailureView) -> FinderView {
        FinderView {
            pending: WalkRequestView::Done,
            open: Seq::empty(),
            failure: Some(failure),
            ..self
        }
    }

    /// The state after the innermost open directory ran out of entries.
    pub open spec fn closed_one(self) -> FinderView {
        if self.open.len() <= 1 {
            FinderView { pending: WalkRequestView::Done, open: Seq::empty(), ..self }
        } else {
            FinderView { open: self.open.drop_last(), ..self }
        }
    }

    /// A request that needs a directory to take entries from has one.
    pub open spec fn wf(self) -> bool {
        &&& self.pending is Next ==> self.open.len() > 0
        &&& self.pending is Done ==> self.open.len() == 0
        &&& self.failure is Some ==> self.pending is Done
    }
}

/// Whether an entry is a match: not a directory, and its base name is the
/// target, character for character.
pub open spec fn is_match(target: Seq<char>, event: WalkEventView) -> bool {
    event matches WalkEventView::Entry { name, is_dir, .. } && !is_dir && name == Some(target)
}

/// One step of the walk: the state after `event` and the path to print, if any.
///
/// An event that does not answer the pending request changes nothing.
pub open spec fn walk_step(s: FinderView, event: WalkEventView) -> (FinderView, Option<Seq<char>>) {
    match s.pending {
        WalkRequestView::Open(dir) => match event {
            WalkEventView::Opened => (
                FinderView { pending: WalkRequestView::Next, open: s.open.push(dir), ..s },
                None,
            ),
            WalkEventView::OpenFailed(failure) => (s.aborted(failure), None),
            _ => (s, None),
        },
        WalkRequestView::Next => match event {
            WalkEventView::Entry { path, name, is_dir } => if is_dir {
                (FinderView { pending: WalkRequestView::Open(path), ..s }, None)
            } else if name == Some(s.target) {
                (FinderView { found: true, ..s }, Some(path))
            } else {
                (s, None)
            },
            WalkEventView::EntryFailed(failure) => (s.aborted(failure), None),
            WalkEventView::EndOfDir => (s.closed_one(), None),
            _ => (s, None),
        },
        WalkRequestView::Done => (s, None),
    }
}

/// A whole walk: the state after all of `events`, taken in order, and the
/// paths printed on the way.
pub open spec fn walk_run(s: FinderView, events: Seq<WalkEventView>) -> (FinderView, Seq<Seq<char>>)
    decreases events.len(),
{
    if events.len() == 0 {
        (s, Seq::empty())
    } else {
        let before = walk_run(s, events.drop_last());
        let step = walk_step(before.0, events.last());
        (
            step.0,
            match step.1 {
                Some(path) => before.1.push(path),
                None => before.1,
            },
        )
    }
}

/// The failure held in an optional value.
pub open spec fn optional_failure(failure: Option<Failure>) -> Option<FailureView> {
    match failure {
        Some(f) => Some(f@),
        None => None,
    }
}

/// What is said once a walk is over: the failure that ended it, if any, and
/// that nothing was found, if and only if nothing was.
pub open spec fn closing_lines(
    target: Seq<char>,
    found: bool,
    failure: Option<FailureView>,
) -> Seq<LineView> {
    let complaint = match failure {
        Some(f) => seq![stderr_line("Error: "@ + f.detail)],
        None => Seq::empty(),
    };
    let verdict = if found {
        Seq::empty()
    } else {
        seq![stdout_line("No file found matching '"@ + target + "'"@)]
    };
    complaint + verdict
}

/// What a search came to: whether anything was found, the paths of the
/// matches in the order they were met, the failure that ended the walk, if
/// any, and whether the walk came to its end.
#[derive(Clone, Debug, PartialEq, Eq)]
pub struct FindResult {
    pub found: bool,
    pub emitted: Vec<String>,
    pub failure: Option<Failure>,
    pub complete: bool,
}

/// The mathematical value of a [`FindResult`].
pub ghost struct FindResultView {
    pub found: bool,
    pub emitted: Seq<Seq<char>>,
    pub failure: Option<FailureView>,
    pub complete: bool,
}

impl View for FindResult {
    type V = FindResultView;

    open spec fn view(&self) -> FindResultView {
        FindResultView {
            found: self.found,
            emitted: views(self.emitted@),
            failure: optional_failure(self.failure),
            complete: self.complete,
        }
    }
}

/// What a search of the tree under `root` for `target` comes to, given what
/// the caller meets on its way through the tree.
pub open spec fn found_files(
    root: Seq<char>,
    target: Seq<char>,
    events: Seq<WalkEventView>,
) -> FindResultView {
    let walked = walk_run(FinderView::start(root, target), events);
    FindResultView {
        found: walked.0.found,
        emitted: walked.1,
        failure: walked.0.failure,
        complete: walked.0.pending is Done,
    }
}

/// Everything a search prints: each match on standard output, then the
/// closing lines.
pub open spec fn find_report(target: Seq<char>, result: FindResultView) -> Seq<LineView> {
    Seq::new(result.emitted.len(), |i: int| stdout_line(result.emitted[i])) + closing_lines(
        target,
        result.found,
        result.failure,
    )
}

/// The walk in progress: what is looked for, what is open, what was asked
/// last, and whether anything was found yet.
pub struct Finder {
    target: String,
    pending: WalkRequest,
    open: Vec<String>,
    found: bool,
    failure: Option<Failure>,
}

impl View for Finder {
    type V = FinderView;

    closed spec fn view(&self) -> FinderView {
        FinderView {
            target: self.target@,
            pending: self.pending@,
            open: views(self.open@),
            found: self.found,
            failure: optional_failure(self.failure),
        }
    }
}

impl Finder {
    /// A walk of the tree under `root` for files named `target`. It first asks
    /// for the root to be opened.
    pub fn new(root: &str, target: &str) -> (finder: Finder)
        ensures
            finder@ == FinderView::start(root@, target@),
            finder@.wf(),
    {
        let finder = Finder {
            target: target.to_owned(),
            pending: WalkRequest::Open(root.to_owned()),
            open: Vec::new(),
            found: false,
            failure: None,
        };
        assert(views(finder.open@) =~= Seq::<Seq<char>>::empty());
        finder
    }

    /// Whether a match has been met so far.
    pub fn found(&self) -> (found: bool)
        ensures
            found == self@.found,
    {
        self.found
    }

    /// Whether the walk is over.
    pub fn is_done(&self) -> (done: bool)
        ensures
            done == (self@.pending is Done),
    {
        match self.pending {
            WalkRequest::Done => true,
            _ => false,
        }
    }

    /// The number of directories being listed.
    pub fn depth(&self) -> (depth: usize)
        ensures
            depth == self@.open.len(),
    {
        self.open.len()
    }

    /// The request that waits for its answer.
    pub fn request(&self) -> (request: WalkRequest)
        ensures
            request@ == self@.pending,
    {
        match &self.pending {
            WalkRequest::Open(dir) => WalkRequest::Open(dir.clone()),
            WalkRequest::Next => WalkRequest::Next,
            WalkRequest::Done => WalkRequest::Done,
        }
    }

    /// Why the walk was given up, if it was.
    pub fn failure(&self) -> (failure: Option<Failure>)
        ensures
            optional_failure(failure) == self@.failure,
    {
        match &self.failure {
            Some(f) => Some(f.copy()),
            None => None,
        }
    }

    /// Gives the walk up: every open directory is dropped.
    fn abort(&mut self, failure: &Failure)
        ensures
            final(self)@ == old(self)@.aborted(failure@),
    {
        self.pending = WalkRequest::Done;
        self.open = Vec::new();
        self.failure = Some(failure.copy());
        assert(views(self.open@) =~= Seq::<Seq<char>>::empty());
    }

    /// Takes the answer to the pending request. Returns the path to print when
    /// the answer is an entry that matches; afterwards [`Finder::request`] says
    /// what to do next.
    ///
    /// A directory is asked to be opened at once, before any further entry of
    /// the directory it stands in. A failure, of the root or of any directory
    /// below it, ends the whole walk. The flag of a match once met stays set.
    pub fn step(&mut self, event: &WalkEvent) -> (emitted: Option<String>)
        ensures
            final(self)@ == walk_step(old(self)@, event@).0,
            optional_text(emitted) == walk_step(old(self)@, event@).1,
            old(self)@.found ==> final(self)@.found,
            old(self)@.wf() ==> final(self)@.wf(),
    {
        match &self.pending {
            WalkRequest::Open(dir) => {
                match event {
                    WalkEvent::Opened => {
                        let dir = dir.clone();
                        self.open.push(dir);
                        self.pending = WalkRequest::Next;
                        assert(views(self.open@) =~= views(old(self).open@).push(dir@));
                    },
                    WalkEvent::OpenFailed(failure) => {
                        self.abort(failure);
                    },
                    _ => {},
                }
                None
            },
            WalkRequest::Next => {
                match event {
                    WalkEvent::Entry { path, name, is_dir } => {
                        if *is_dir {
                            self.pending = WalkRequest::Open(path.clone());
                            None
                        } else if names(name, &self.target) {
                            self.found = true;
                            Some(path.clone())
                        } else {
                            None
                        }
                    },
                    WalkEvent::EntryFailed(failure) => {
                        self.abort(failure);
                        None
                    },
                    WalkEvent::EndOfDir => {
                        if self.open.len() <= 1 {
                            self.open = Vec::new();
                            self.pending = WalkRequest::Done;
                            assert(views(self.open@) =~= Seq::<Seq<char>>::empty());
                        } else {
                            self.open.pop();
                            assert(views(self.open@) =~= views(old(self).open@).drop_last());
                        }
                        None
                    },
                    _ => None,
                }
            },
            WalkRequest::Done => None,
        }
    }

    /// What to say once the walk is over: the failure that ended it, if any,
    /// on standard error, and then, if and only if nothing was found, that
    /// nothing was.
    pub fn closing(&self) -> (lines: Vec<Line>)
        ensures
            views(lines@) == closing_lines(self@.target, self@.found, self@.failure),
    {
        say_closing(self.target.as_str(), self.found, &self.failure)
    }

    /// Takes a run of answers, in order, and returns the paths to print. What
    /// comes after the walk is over is passed by.
    pub fn run(&mut self, events: &Vec<WalkEvent>) -> (emitted: Vec<String>)
        ensures
            final(self)@ == walk_run(old(self)@, views(events@)).0,
            views(emitted@) == walk_run(old(self)@, views(events@)).1,
            old(self)@.found ==> final(self)@.found,
    {
        let mut emitted: Vec<String> = Vec::new();
        let mut i: usize = 0;
        assert(views(events@).take(0) =~= Seq::<WalkEventView>::empty());
        assert(views(emitted@) =~= Seq::<Seq<char>>::empty());
        while i < events.len()
            invariant
                i <= events@.len(),
                self@ == walk_run(old(self)@, views(events@).take(i as int)).0,
                views(emitted@) == walk_run(old(self)@, views(events@).take(i as int)).1,
                old(self)@.found ==> self@.found,
            decreases events@.len() - i,
        {
            let ghost before = views(emitted@);
            let ghost all = views(events@);
            assert(all.take(i + 1).drop_last() =~= all.take(i as int));
            assert(all.take(i + 1).last() == events@[i as int]@);
            match self.step(&events[i]) {
                Some(path) => {
                    emitted.push(path);
                    assert(views(emitted@) =~= before.push(path@));
                },
                None => {},
            }
            i += 1;
        }
        assert(views(events@).take(i as int) =~= views(events@));
        emitted
    }
}

/// The closing lines of a search for `target`.
fn say_closing(target: &str, found: bool, failure: &Option<Failure>) -> (lines: Vec<Line>)
    ensures
        views(lines@) == closing_lines(target@, found, optional_failure(*failure)),
{
    let mut lines: Vec<Line> = Vec::new();
    match failure {
        Some(f) => {
            lines.push(Line::stderr(join("Error: ", f.detail.as_str())));
        },
        None => {},
    }
    if !found {
        let mut text = join("No file found matching '", target);
        text.append("'");
        lines.push(Line::stdout(text));
    }
    assert(views(lines@) =~= closing_lines(target@, found, optional_failure(*failure)));
    lines
}

/// Searches the tree under `path` for files named `filename`, given what the
/// caller met on its way through the tree, in order.
pub fn find_files(path: &str, filename: &str, events: &Vec<WalkEvent>) -> (result: FindResult)
    ensures
        result@ == found_files(path@, filename@, views(events@)),
{
    let mut finder = Finder::new(path, filename);
    let emitted = finder.run(events);
    FindResult {
        found: finder.found(),
        emitted,
        failure: finder.failure(),
        complete: finder.is_done(),
    }
}

/// Everything to print for a search for `filename` that came to `result`.
pub fn report_find(filename: &str, result: &FindResult) -> (lines: Vec<Line>)
    ensures
        views(lines@) == find_report(filename@, result@),
{
    let ghost paths = views(result.emitted@);
    let mut lines: Vec<Line> = Vec::new();
    let mut i: usize = 0;
    while i < result.emitted.len()
        invariant
            i <= result.emitted@.len(),
            views(result.emitted@) == paths,
            views(lines@) == Seq::new(i as nat, |k: int| stdout_line(paths[k])),
        decreases result.emitted@.len() - i,
    {
        let ghost before = views(lines@);
        let path = result.emitted[i].clone();
        assert(path@ == paths[i as int]);
        lines.push(Line::stdout(path));
        i += 1;
        assert(views(lines@) =~= before.push(stdout_line(paths[i - 1])));
        assert(views(lines@) =~= Seq::new(i as nat, |k: int| stdout_line(paths[k])));
    }
    let ghost head = views(lines@);
    let mut closing = say_closing(filename, result.found, &result.failure);
    let ghost tail = views(closing@);
    lines.append(&mut closing);
    assert(views(lines@) =~= head + tail);
    lines
}

/// A match once met stays met: no step clears the flag.
pub proof fn lemma_found_is_monotonic(s: FinderView, events: Seq<WalkEventView>)
    requires
        s.found,
    ensures
        walk_run(s, events).0.found,
    decreases events.len(),
{
    if events.len() > 0 {
        lemma_found_is_monotonic(s, events.drop_last());
    }
}

/// The target never changes during a walk.
pub proof fn lemma_target_is_kept(s: FinderView, events: Seq<WalkEventView>)
    ensures
        walk_run(s, events).0.target == s.target,
    decreases events.len(),
{
    if events.len() > 0 {
        lemma_target_is_kept(s, events.drop_last());
    }
}

/// A walk keeps its state well formed.
pub proof fn lemma_walk_keeps_wf(s: FinderView, events: Seq<WalkEventView>)
    requires
        s.wf(),
    ensures
        walk_run(s, events).0.wf(),
    decreases events.len(),
{
    if events.len() > 0 {
        lemma_walk_keeps_wf(s, events.drop_last());
    }
}

/// Once a walk is over, nothing that follows changes it or prints anything.
pub proof fn lemma_done_is_final(s: FinderView, events: Seq<WalkEventView>)
    requires
        s.pending is Done,
    ensures
        walk_run(s, events) == (s, Seq::<Seq<char>>::empty()),
    decreases events.len(),
{
    if events.len() > 0 {
        lemma_done_is_final(s, events.drop_last());
    }
}

/// A walk that meets no file of the target's name prints no path and ends
/// with nothing found.
pub proof fn lemma_no_match_finds_nothing(
    root: Seq<char>,
    target: Seq<char>,
    events: Seq<WalkEventView>,
)
    requires
        forall|i: int| 0 <= i < events.len() ==> !is_match(target, #[trigger] events[i]),
    ensures
        walk_run(FinderView::start(root, target), events).1.len() == 0,
        !walk_run(FinderView::start(root, target), events).0.found,
    decreases events.len(),
{
    let start = FinderView::start(root, target);
    if events.len() > 0 {
        let front = events.drop_last();
        assert forall|i: int| 0 <= i < front.len() implies !is_match(target, #[trigger] front[i]) by {
            assert(front[i] == events[i]);
        }
        lemma_no_match_finds_nothing(root, target, front);
        lemma_target_is_kept(start, front);
        assert(!is_match(target, events[events.len() - 1]));
    }
}

/// From its start, a walk has found something exactly when it has printed a
/// path.
pub proof fn lemma_found_iff_printed(root: Seq<char>, target: Seq<char>, events: Seq<WalkEventView>)
    ensures
        walk_run(FinderView::start(root, target), events).0.found <==> walk_run(
            FinderView::start(root, target),
            events,
        ).1.len() > 0,
    decreases events.len(),
{
    if events.len() > 0 {
        lemma_found_iff_printed(root, target, events.drop_last());
    }
}

/// Every path printed is the path of an entry that was met and is a match.
pub proof fn lemma_printed_are_matches(s: FinderView, events: Seq<WalkEventView>, k: int)
    requires
        0 <= k < walk_run(s, events).1.len(),
    ensures
        exists|i: int|
            0 <= i < events.len() && is_match(s.target, #[trigger] events[i]) && events[i]->path
                == walk_run(s, events).1[k],
    decreases events.len(),
{
    if events.len() > 0 {
        let front = events.drop_last();
        let before = walk_run(s, front);
        lemma_target_is_kept(s, front);
        if k < before.1.len() {
            lemma_printed_are_matches(s, front, k);
            let i = choose|i: int|
                0 <= i < front.len() && is_match(s.target, #[trigger] front[i]) && front[i]->path
                    == before.1[k];
            assert(events[i] == front[i]);
        } else {
            let last = events.len() - 1;
            assert(is_match(s.target, events[last]));
            assert(events[last]->path == walk_run(s, events).1[k]);
        }
    }
}

/// Whether an entry's base name is the target.
fn names(name: &Option<String>, target: &String) -> (same: bool)
    ensures
        same == (optional_text(*name) == Some(target@)),
{
    match name {
        Some(n) => *n == *target,
        None => false,
    }
}

/// The closing lines say that nothing was found if and only if nothing was:
/// that sentence is their only line on standard output.
pub proof fn lemma_verdict_iff_nothing_found(
    target: Seq<char>,
    found: bool,
    failure: Option<FailureView>,
)
    ensures
        texts_on(closing_lines(target, found, failure), Stream::Stdout) == if found {
            Seq::<Seq<char>>::empty()
        } else {
            seq!["No file found matching '"@ + target + "'"@]
        },
{
    let none = Seq::<LineView>::empty();
    let verdict = stdout_line("No file found matching '"@ + target + "'"@);
    match failure {
        Some(f) => {
            let complaint = stderr_line("Error: "@ + f.detail);
            lemma_texts_on_push(none, complaint, Stream::Stdout);
            if found {
                assert(closing_lines(target, found, failure) =~= none.push(complaint));
            } else {
                lemma_texts_on_push(none.push(complaint), verdict, Stream::Stdout);
                assert(closing_lines(target, found, failure) =~= none.push(complaint).push(
                    verdict,
                ));
            }
        },
        None => {
            if found {
                assert(closing_lines(target, found, failure) =~= none);
            } else {
                lemma_texts_on_push(none, verdict, Stream::Stdout);
                assert(closing_lines(target, found, failure) =~= none.push(verdict));
            }
        },
    }
}

} // verus!
