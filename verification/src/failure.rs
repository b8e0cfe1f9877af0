//! What can go wrong while reading the file system, as the caller reports it.

use vstd::prelude::*;

verus! {

/// The kinds of failure an operation tells apart.
#[derive(Clone, Copy, Debug, PartialEq, Eq, Structural)]
pub enum ErrorKind {
    /// The path named does not exist.
    PathNotFound,
    /// The path exists but could not be opened or read.
    Unreadable,
    /// What was read is not text.
    DecodeError,
    /// The entry is there but its metadata could not be had.
    MetadataUnavailable,
}

/// One failure: its kind, the path it concerns (empty where none is known) and
/// the description the system gave.
#[derive(Clone, Debug, PartialEq, Eq)]
pub struct Failure {
    pub kind: ErrorKind,
    pub path: String,
    pub detail: String,
}

/// The mathematical value of a [`Failure`].
pub ghost struct FailureView {
    pub kind: ErrorKind,
    pub path: Seq<char>,
    pub detail: Seq<char>,
}

impl View for Failure {
    type V = FailureView;

    open spec fn view(&self) -> FailureView {
        FailureView { kind: self.kind, path: self.path@, detail: self.detail@ }
    }
}

impl Failure {
    /// A failure of the given kind.
    pub fn new(kind: ErrorKind, path: String, detail: String) -> (failure: Failure)
        ensures
            failure@ == (FailureView { kind, path: path@, detail: detail@ }),
    {
        Failure { kind, path, detail }
    }

    /// An independent copy.
    pub fn copy(&self) -> (failure: Failure)
        ensures
            failure@ == self@,
    {
        Failure { kind: self.kind, path: self.path.clone(), detail: self.detail.clone() }
    }
}

} // verus!
