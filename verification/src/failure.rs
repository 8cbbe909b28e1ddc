//! The ways in which a run can fail, and how each ends the process.

use crate::loader::LoadError;
use vstd::prelude::*;

verus! {

/// Why a run stopped. No failure is retried or recovered from.
#[derive(Debug, Clone, Copy, PartialEq, Eq)]
pub enum Failure {
    /// An argument is missing or cannot be read.
    Usage,
    /// The input cannot be opened, or an artifact cannot be created or written.
    Io,
    /// A line lacks the column, or its token is no number.
    Parse,
    /// The transform refused its buffers.
    Transform,
}

impl Failure {
    /// The status with which the process ends after this failure.
    pub open spec fn status(self) -> int {
        match self {
            Failure::Usage => 1,
            _ => 101,
        }
    }

    /// The status with which the process ends after this failure: 1 after a
    /// usage failure, 101 after any other, never 0.
    pub fn exit_status(&self) -> (code: i32)
        ensures
            code == self.status(),
            code != 0,
    {
        match self {
            Failure::Usage => 1,
            _ => 101,
        }
    }

    /// The failure that a load error amounts to.
    pub fn of_load(error: LoadError) -> (failure: Failure)
        ensures
            failure == Failure::Parse,
    {
        match error {
            LoadError::MissingColumn => Failure::Parse,
        }
    }
}

} // verus!
