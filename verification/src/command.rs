//! The five commands and the operation each one stands for.

use vstd::prelude::*;

use crate::report::stdout_line;
use crate::report::Line;
use crate::search::Matcher;
use crate::search::MatcherView;
use crate::walk::Finder;
use crate::walk::FinderView;

verus! {

/// A command as it was resolved from the command line.
#[derive(Clone, Debug, PartialEq, Eq)]
pub enum Command {
    /// Print a text.
    Echo { text: String },
    /// Print the content of a file.
    Cat { file: String },
    /// List the entries of a directory.
    List { path: String },
    /// Find the files of a given name in a directory tree.
    Find { path: String, filename: String },
    /// Print the lines of a file that hold a pattern.
    Grep { pattern: String, file: String },
}

/// The mathematical value of a [`Command`].
pub ghost enum CommandView {
    Echo { text: Seq<char> },
    Cat { file: Seq<char> },
    List { path: Seq<char> },
    Find { path: Seq<char>, filename: Seq<char> },
    Grep { pattern: Seq<char>, file: Seq<char> },
}

impl View for Command {
    type V = CommandView;

    open spec fn view(&self) -> CommandView {
        match *self {
            Command::Echo { text } => CommandView::Echo { text: text@ },
            Command::Cat { file } => CommandView::Cat { file: file@ },
            Command::List { path } => CommandView::List { path: path@ },
            Command::Find { path, filename } => CommandView::Find {
                path: path@,
                filename: filename@,
            },
            Command::Grep { pattern, file } => CommandView::Grep {
                pattern: pattern@,
                file: file@,
            },
        }
    }
}

/// An operation ready to be carried out: what it works on, and for the two
/// that keep state while they read, that state at its start.
pub enum Operation {
    /// Print `text` on standard output.
    Echo { text: String },
    /// Read `file` line by line and show each line.
    Show { file: String },
    /// List the directory `path`.
    List { path: String },
    /// Walk the tree as `finder` asks.
    Find { finder: Finder },
    /// Read `file` line by line and feed each line to `matcher`.
    Search { file: String, matcher: Matcher },
}

/// The mathematical value of an [`Operation`].
pub ghost enum OperationView {
    Echo { text: Seq<char> },
    Show { file: Seq<char> },
    List { path: Seq<char> },
    Find { finder: FinderView },
    Search { file: Seq<char>, matcher: MatcherView },
}

impl View for Operation {
    type V = OperationView;

    open spec fn view(&self) -> OperationView {
        match *self {
            Operation::Echo { text } => OperationView::Echo { text: text@ },
            Operation::Show { file } => OperationView::Show { file: file@ },
            Operation::List { path } => OperationView::List { path: path@ },
            Operation::Find { finder } => OperationView::Find { finder: finder@ },
            Operation::Search { file, matcher } => OperationView::Search {
                file: file@,
                matcher: matcher@,
            },
        }
    }
}

/// The directory that is listed when none is named.
pub open spec fn default_dir() -> Seq<char> {
    "."@
}

/// The operation a command stands for: each command has exactly one, and the
/// operation works on what the command names.
pub open spec fn operation_of(command: CommandView) -> OperationView {
    match command {
        CommandView::Echo { text } => OperationView::Echo { text },
        CommandView::Cat { file } => OperationView::Show { file },
        CommandView::List { path } => OperationView::List { path },
        CommandView::Find { path, filename } => OperationView::Find {
            finder: FinderView::start(path, filename),
        },
        CommandView::Grep { pattern, file } => OperationView::Search {
            file,
            matcher: MatcherView { pattern, seen: 0 },
        },
    }
}

impl Command {
    /// The command to list `path`, or the current directory where no path is
    /// given.
    pub fn list(path: Option<String>) -> (command: Command)
        ensures
            command@ == (CommandView::List {
                path: match path {
                    Some(p) => p@,
                    None => default_dir(),
                },
            }),
    {
        match path {
            Some(p) => Command::List { path: p },
            None => Command::List { path: ".".to_owned() },
        }
    }
}

/// What echoing `text` prints: the text, on standard output.
pub fn echo(text: &str) -> (line: Line)
    ensures
        line@ == stdout_line(text@),
{
    Line::stdout(text.to_owned())
}

/// Picks the operation that `command` stands for.
pub fn dispatch(command: &Command) -> (operation: Operation)
    ensures
        operation@ == operation_of(command@),
{
    match command {
        Command::Echo { text } => Operation::Echo { text: text.clone() },
        Command::Cat { file } => Operation::Show { file: file.clone() },
        Command::List { path } => Operation::List { path: path.clone() },
        Command::Find { path, filename } => Operation::Find {
            finder: Finder::new(path.as_str(), filename.as_str()),
        },
        Command::Grep { pattern, file } => Operation::Search {
            file: file.clone(),
            matcher: Matcher::new(pattern.as_str()),
        },
    }
}

} // verus!
