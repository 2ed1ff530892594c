//! The failures the library reports to its callers.
use vstd::prelude::*;

verus! {

/// Everything that can go wrong inside the library's own decisions: a
/// submitted path that does not exist, a report demanded before a run
/// finished, a retired job without a terminal status at aggregation time,
/// and an engine name the tool does not know.
#[derive(Clone, Copy, Debug, PartialEq, Eq, Structural)]
pub enum BuildError {
    PathNotFound,
    MissingReport,
    JobNotCompleted,
    UnrecognisedEngine,
}

/// What each error's wording is.
pub open spec fn error_text(e: BuildError) -> Seq<char> {
    match e {
        BuildError::PathNotFound => "the file does not exist"@,
        BuildError::MissingReport => "report has not been set"@,
        BuildError::JobNotCompleted => "job was not completed"@,
        BuildError::UnrecognisedEngine => "unrecognised engine"@,
    }
}

impl BuildError {
    /// A short description, for callers that render errors.
    pub fn describe(&self) -> (r: &'static str)
        ensures
            r@ == error_text(*self),
    {
        match self {
            BuildError::PathNotFound => "the file does not exist",
            BuildError::MissingReport => "report has not been set",
            BuildError::JobNotCompleted => "job was not completed",
            BuildError::UnrecognisedEngine => "unrecognised engine",
        }
    }
}

} // verus!
