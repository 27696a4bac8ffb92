//! The failure taxonomy of the pipeline. Every step either succeeds or
//! surfaces one of these values; nothing is retried or recovered.

use vstd::prelude::*;

verus! {

/// What can go wrong while the pipeline runs: writing the temporary file,
/// deleting it, loading it as CSV, or executing the engine over it.
#[derive(Clone, Copy, Debug, PartialEq, Eq, Structural)]
pub enum Failure {
    /// The content could not be written to the target path.
    FileWriteFailure,
    /// The file to delete was absent or could not be removed.
    FileDeleteFailure,
    /// The file to load was absent or its content was not well-formed CSV.
    FileLoadFailure,
    /// The engine failed while materializing or rendering the table.
    EngineExecutionFailure,
}

impl Failure {
    /// A short human-readable name for the failure, for messages printed
    /// by callers.
    pub fn describe(&self) -> (r: &'static str)
        ensures
            r@ == self.spec_describe(),
    {
        match self {
            Failure::FileWriteFailure => "problem with writing file",
            Failure::FileDeleteFailure => "problem with deleting file",
            Failure::FileLoadFailure => "problem with loading the CSV file",
            Failure::EngineExecutionFailure => "problem while executing the engine",
        }
    }

    /// The text that `describe` returns.
    pub open spec fn spec_describe(&self) -> Seq<char> {
        match self {
            Failure::FileWriteFailure => "problem with writing file"@,
            Failure::FileDeleteFailure => "problem with deleting file"@,
            Failure::FileLoadFailure => "problem with loading the CSV file"@,
            Failure::EngineExecutionFailure => "problem while executing the engine"@,
        }
    }
}

} // verus!
