//! `gits` keeps sensitive files in a second git repository that lives next to
//! a project's ordinary one. The secondary repository's metadata sits in a
//! `.gits` directory inside the working tree; the ordinary repository is told
//! to ignore that directory through its local exclude list.
//!
//! This crate holds the tool's decision logic: routing the command line,
//! checking the preconditions of the two operations, keeping the exclude list
//! free of duplicate entries, and turning a child process's exit status into
//! the tool's own. Running the external `git` executable and touching the
//! filesystem are left to the thin binary built around this crate.

pub mod delegate;
pub mod errors;
pub mod exclude;
pub mod router;
