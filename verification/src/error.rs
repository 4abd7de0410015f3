//! The failures that the library reports.

use vstd::prelude::*;

verus! {

/// Why an execution did not start, or why no statistic could be computed.
#[derive(Debug, Clone, PartialEq, Eq)]
pub enum LensError {
    /// The command line is unparsable or names no program.
    InvalidCommand,
    /// The operating system refused to start the program; the payload is the
    /// system's own description of the failure.
    SpawnFailed(String),
    /// A statistic was asked of a sample set that holds no sample.
    EmptySampleSet,
}

impl LensError {
    /// The failure in words.
    pub open spec fn message_text(self) -> Seq<char> {
        match self {
            LensError::InvalidCommand => "Empty command"@,
            LensError::SpawnFailed(reason) => "Failed to spawn process: "@ + reason@,
            LensError::EmptySampleSet => "No samples to summarise"@,
        }
    }

    /// The failure in words.
    pub fn message(&self) -> (text: String)
        ensures
            text@ == self.message_text(),
    {
        match self {
            LensError::InvalidCommand => String::from_str("Empty command"),
            LensError::SpawnFailed(reason) => String::from_str("Failed to spawn process: ").concat(
                reason.as_str(),
            ),
            LensError::EmptySampleSet => String::from_str("No samples to summarise"),
        }
    }
}

} // verus!
