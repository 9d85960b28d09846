//! The error kinds reported by the library.
use vstd::prelude::*;

use crate::name::PackageKind;

verus! {

/// Every failure the library reports.
#[derive(Debug)]
pub enum ErrorKind {
    /// A string is not a valid `Name`.
    InvalidNameString(String),
    /// No installer is registered for the package kind on the package's platform.
    NoInstallerForKind(PackageKind),
    /// An installer was asked to act on a package of another kind.
    WrongInstallerForKind(PackageKind),
    /// A document holds a field that its schema does not know.
    UnknownField(String),
    /// A document lacks a required field, or a field holds a value of the wrong shape.
    InvalidConfigValue(String),
    /// A command could not be started, or exited with a failure status (when it has one).
    CommandExecutionFailed(String, Option<i32>),
    /// A builder was asked for an action that does not fit its current state.
    InvalidBuilderState,
}

} // verus!
