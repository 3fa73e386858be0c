//! The tool's error taxonomy. Every failure the tool itself can detect is one
//! of these variants; the delegate child process exiting non-zero during a
//! passthrough call is deliberately not among them, since that status is
//! forwarded as the tool's own exit code rather than reported as an error.

use vstd::prelude::*;

verus! {

/// A filesystem step of `init` that can fail. Each variant names the
/// operation whose failure it reports, so a message can say which step broke.
#[derive(Clone, Copy, Debug, PartialEq, Eq, Structural)]
pub enum FsOperation {
    /// Creating the secondary metadata directory.
    CreateSecondaryDir,
    /// Creating the parent directory of the primary exclude-list file.
    CreateExcludeParent,
    /// Opening the primary exclude-list file.
    OpenExcludeFile,
    /// Reading the primary exclude-list file.
    ReadExcludeFile,
    /// Writing to the primary exclude-list file.
    WriteExcludeFile,
}

/// Everything that can go wrong inside the tool.
#[derive(Clone, Copy, Debug, PartialEq, Eq, Structural)]
pub enum GitsError {
    /// `init` was run in a directory that holds no primary metadata
    /// directory, so there is no repository to attach a secondary one to.
    NotAPrimaryRepository,
    /// A passthrough call was made before `init` created the secondary
    /// metadata directory.
    SecondaryRepoNotInitialized,
    /// The delegate executable ran during `init` but reported failure.
    DelegateInitFailed,
    /// The delegate executable could not be started at all.
    DelegateSpawnFailed,
    /// A filesystem step of `init` failed; the payload names the step.
    Filesystem(FsOperation),
}

impl FsOperation {
    /// A short description of the failing operation, for error messages.
    pub fn describe(&self) -> (s: &'static str)
        ensures
            *self is CreateSecondaryDir ==> s@ == "create the .gits directory"@,
            *self is CreateExcludeParent ==> s@ == "create the exclude file's directory"@,
            *self is OpenExcludeFile ==> s@ == "open the exclude file"@,
            *self is ReadExcludeFile ==> s@ == "read the exclude file"@,
            *self is WriteExcludeFile ==> s@ == "write to the exclude file"@,
    {
        match self {
            FsOperation::CreateSecondaryDir => "create the .gits directory",
            FsOperation::CreateExcludeParent => "create the exclude file's directory",
            FsOperation::OpenExcludeFile => "open the exclude file",
            FsOperation::ReadExcludeFile => "read the exclude file",
            FsOperation::WriteExcludeFile => "write to the exclude file",
        }
    }
}

impl GitsError {
    /// The human-readable message printed when the tool stops on this error.
    pub fn message(&self) -> (s: &'static str)
        ensures
            *self is NotAPrimaryRepository ==> s@ == "Not in a git repository. Initialize a git repository first."@,
            *self is SecondaryRepoNotInitialized ==> s@ == ".gits directory not found. Run 'gits init' first."@,
            *self is DelegateInitFailed ==> s@ == "Failed to initialize git repository in .gits"@,
            *self is DelegateSpawnFailed ==> s@ == "Failed to execute git"@,
            *self matches GitsError::Filesystem(_) ==> s@
                == "A filesystem operation failed"@,
    {
        match self {
            GitsError::NotAPrimaryRepository => {
                "Not in a git repository. Initialize a git repository first."
            },
            GitsError::SecondaryRepoNotInitialized => {
                ".gits directory not found. Run 'gits init' first."
            },
            GitsError::DelegateInitFailed => "Failed to initialize git repository in .gits",
            GitsError::DelegateSpawnFailed => "Failed to execute git",
            GitsError::Filesystem(_) => "A filesystem operation failed",
        }
    }
}

} // verus!
