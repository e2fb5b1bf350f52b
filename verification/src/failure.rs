//! The failures of a run, and which of them end it.

use vstd::prelude::*;

verus! {

/// What can go wrong in a run.
#[derive(Clone, Copy, Debug, PartialEq, Eq, Structural)]
pub enum FailureKind {
    /// No repository was found from where the run started.
    RepoDiscovery,
    /// The repository has no working tree to walk.
    BareRepository,
    /// The walk over the working tree failed.
    Traversal,
    /// An include or exclude pattern is not well formed.
    InvalidPattern,
    /// A file could not be read.
    Read,
    /// A file's content is not UTF-8 text.
    Decode,
    /// A file could not be written.
    Write,
}

impl FailureKind {
    /// Whether a failure of this kind concerns one file only, so that the
    /// run goes on with the next.
    pub open spec fn concerns_one_file(self) -> bool {
        self is Read || self is Decode || self is Write
    }

    /// Tells whether a failure of this kind ends the run.
    pub fn is_fatal(self) -> (fatal: bool)
        ensures
            fatal == !self.concerns_one_file(),
    {
        match self {
            FailureKind::Read | FailureKind::Decode | FailureKind::Write => false,
            _ => true,
        }
    }
}

/// The status a run exits with: zero unless a fatal failure ended it.
/// Files that failed one by one do not count, and neither does a run that
/// found no file.
pub fn exit_status(ended_by: Option<FailureKind>) -> (status: u8)
    ensures
        status == if ended_by matches Some(kind) && !kind.concerns_one_file() {
            1u8
        } else {
            0u8
        },
{
    match ended_by {
        Some(kind) => if kind.is_fatal() {
            1
        } else {
            0
        },
        None => 0,
    }
}

} // verus!
