use vstd::prelude::*;

verus! {

/// Errors of the diff core.
#[derive(Clone, Debug, PartialEq, Eq)]
pub enum TuicrError {
    /// The resulting diff holds no file.
    NoChanges,
    /// A comment range whose start exceeds its end, or with a bound of zero.
    InvalidRange,
    /// Old-side and new-side sizes of a context gap disagree.
    GapIntegrity,
    /// A file delta with neither an old nor a new path.
    MissingPath,
    /// A hunk whose header disagrees with its lines.
    MalformedHunk,
    /// An error of a collaborator (version control, highlighting, content reading),
    /// carried as its message.
    Backend(String),
}

} // verus!
