//! Decisions around the delegate executable: the preconditions of the two
//! operations, the shape of the child invocation each one needs, the verdict
//! on the delegate's `init` run, and the exit code the tool leaves with.
//!
//! The functions here only decide; they touch nothing. The binary around the
//! crate observes the filesystem, hands the observations in as plain values,
//! and carries out exactly the command a returned plan describes. A
//! `DelegateCommand` is only ever produced once the operation's precondition
//! has been found to hold, so a run that fails the precondition has no plan
//! to carry out.

use vstd::prelude::*;
use crate::errors::GitsError;

verus! {

/// A child invocation of the delegate executable: its arguments and the two
/// paths its environment redirects it to.
pub struct DelegateCommand {
    /// Arguments for the delegate, in the order the caller gave them.
    pub args: Vec<String>,
    /// Path the metadata-directory variable is set to.
    pub metadata_dir: String,
    /// Path the work-tree variable is set to, when it is set at all.
    pub work_tree: Option<String>,
}

/// The delegate executable's name.
pub fn delegate_program() -> (s: &'static str)
    ensures
        s@ == "git"@,
{
    "git"
}

/// The environment variable that relocates the delegate's metadata
/// directory.
pub fn metadata_dir_variable() -> (s: &'static str)
    ensures
        s@ == "GIT_DIR"@,
{
    "GIT_DIR"
}

/// The environment variable that relocates the delegate's working tree.
pub fn work_tree_variable() -> (s: &'static str)
    ensures
        s@ == "GIT_WORK_TREE"@,
{
    "GIT_WORK_TREE"
}

/// The name of the secondary metadata directory, as it appears under the
/// working directory.
pub fn secondary_dir_name() -> (s: &'static str)
    ensures
        s@ == ".gits"@,
{
    ".gits"
}

/// `init` runs only inside a primary repository: absent one, it stops with
/// `NotAPrimaryRepository` before anything is created.
pub fn check_primary_repository(primary_exists: bool) -> (r: Result<(), GitsError>)
    ensures
        primary_exists ==> r == Ok::<(), GitsError>(()),
        !primary_exists ==> r == Err::<(), GitsError>(GitsError::NotAPrimaryRepository),
{
    if primary_exists {
        Ok(())
    } else {
        Err(GitsError::NotAPrimaryRepository)
    }
}

/// The verdict on the delegate's own `init` run: a child that could not be
/// started is `DelegateSpawnFailed`, one that ran but did not report success
/// (exit code zero) is `DelegateInitFailed`.
pub fn check_delegate_init(spawned: bool, exit_code: Option<i32>) -> (r: Result<(), GitsError>)
    ensures
        !spawned ==> r == Err::<(), GitsError>(GitsError::DelegateSpawnFailed),
        spawned && exit_code == Some(0i32) ==> r == Ok::<(), GitsError>(()),
        spawned && exit_code != Some(0i32) ==> r == Err::<(), GitsError>(
            GitsError::DelegateInitFailed,
        ),
{
    if !spawned {
        return Err(GitsError::DelegateSpawnFailed);
    }
    match exit_code {
        Some(code) => if code == 0 {
            Ok(())
        } else {
            Err(GitsError::DelegateInitFailed)
        },
        None => Err(GitsError::DelegateInitFailed),
    }
}

/// The delegate invocation that creates the secondary repository during
/// `init`: the single argument `init`, with only the metadata directory
/// redirected and no work tree set.
pub fn plan_init_delegate(metadata_dir: String) -> (c: DelegateCommand)
    ensures
        c.args@.len() == 1,
        c.args@[0]@ == "init"@,
        c.metadata_dir == metadata_dir,
        c.work_tree is None,
{
    let mut args: Vec<String> = Vec::new();
    args.push("init".to_owned());
    DelegateCommand { args, metadata_dir, work_tree: None }
}

/// Plan a passthrough call. Before `init` has created the secondary
/// repository the call is refused with `SecondaryRepoNotInitialized` and no
/// plan exists; afterwards the plan carries the caller's arguments
/// untouched and in order, the metadata directory pointed at the secondary
/// repository and the work tree at the caller's directory.
pub fn plan_passthrough(
    secondary_exists: bool,
    metadata_dir: String,
    work_tree: String,
    args: Vec<String>,
) -> (r: Result<DelegateCommand, GitsError>)
    ensures
        !secondary_exists ==> r == Err::<DelegateCommand, GitsError>(
            GitsError::SecondaryRepoNotInitialized,
        ),
        secondary_exists ==> (r matches Ok(c) && c.args == args && c.metadata_dir == metadata_dir
            && c.work_tree == Some(work_tree)),
{
    if !secondary_exists {
        return Err(GitsError::SecondaryRepoNotInitialized);
    }
    Ok(DelegateCommand { args, metadata_dir, work_tree: Some(work_tree) })
}

/// The exit code the tool leaves with after a passthrough call: exactly the
/// delegate child's own code, or 1 when the child was stopped without one.
pub fn exit_code_from(status: Option<i32>) -> (r: i32)
    ensures
        status matches Some(code) ==> r == code,
        status is None ==> r == 1,
{
    match status {
        Some(code) => code,
        None => 1,
    }
}

} // verus!
