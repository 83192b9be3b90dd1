//! The ways in which a run can fail.

use vstd::prelude::*;
use vstd::string::*;

verus! {

/// Why no statistics could be reported. Every failure ends the run.
#[derive(Debug, PartialEq, Eq)]
pub enum WcError {
    /// No argument was given.
    Usage,
    /// Nothing exists at the path that was given.
    PathNotFound,
    /// The content could not be read as text; holds a description of the cause.
    Read(String),
    /// The size could not be retrieved; holds a description of the cause.
    Metadata(String),
}

impl WcError {
    /// The text that [`WcError::message`] gives for this error.
    pub open spec fn description(self) -> Seq<char> {
        match self {
            WcError::Usage => "No arguments provided"@,
            WcError::PathNotFound => "Path does not exist!"@,
            WcError::Read(cause) => "Failed to read file content: "@ + cause@,
            WcError::Metadata(cause) => "Failed to retrieve file metadata: "@ + cause@,
        }
    }

    /// A description of the error for the person who started the run.
    pub fn message(&self) -> (text: String)
        ensures
            text@ == self.description(),
    {
        match self {
            WcError::Usage => String::from_str("No arguments provided"),
            WcError::PathNotFound => String::from_str("Path does not exist!"),
            WcError::Read(cause) => {
                String::from_str("Failed to read file content: ").concat(cause.as_str())
            },
            WcError::Metadata(cause) => {
                String::from_str("Failed to retrieve file metadata: ").concat(cause.as_str())
            },
        }
    }
}

} // verus!
