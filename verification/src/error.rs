//! The ways in which a submission can fail.

use vstd::prelude::*;
use vstd::string::StringExecFns;

verus! {

/// Why a submission could not go on. Every one of these ends the current run.
#[derive(Debug, Clone, PartialEq, Eq)]
pub enum ArrayifyError {
    /// The table or the directory to read from is not there.
    InputNotFound,
    /// The table could not be read as delimited records.
    MalformedInput,
    /// The identifier has a file for only one of its two slots.
    IncompletePair(String),
    /// The directory holds no file that belongs to a pair.
    EmptyInput,
    /// The log could not be written or the scheduler could not be started.
    SubmissionExec,
}

/// An error as plain text.
pub enum ErrorText {
    InputNotFound,
    MalformedInput,
    IncompletePair(Seq<char>),
    EmptyInput,
    SubmissionExec,
}

impl View for ArrayifyError {
    type V = ErrorText;

    open spec fn view(&self) -> ErrorText {
        match self {
            ArrayifyError::InputNotFound => ErrorText::InputNotFound,
            ArrayifyError::MalformedInput => ErrorText::MalformedInput,
            ArrayifyError::IncompletePair(id) => ErrorText::IncompletePair(id@),
            ArrayifyError::EmptyInput => ErrorText::EmptyInput,
            ArrayifyError::SubmissionExec => ErrorText::SubmissionExec,
        }
    }
}

/// The outcome of a resolution as plain text.
pub open spec fn outcome_text(outcome: Result<Vec<String>, ArrayifyError>) -> Result<
    Seq<Seq<char>>,
    ErrorText,
> {
    match outcome {
        Ok(jobs) => Ok(jobs.deep_view()),
        Err(error) => Err(error@),
    }
}

impl ArrayifyError {
    /// What the error says to the operator.
    pub open spec fn message_text(self) -> Seq<char> {
        match self {
            ArrayifyError::InputNotFound => "Provided path is not a directory"@,
            ArrayifyError::MalformedInput => "Input is not a well-formed table"@,
            ArrayifyError::IncompletePair(id) => "Missing R1 or R2 for ID: "@ + id@,
            ArrayifyError::EmptyInput => "No valid file pairs found in the directory"@,
            ArrayifyError::SubmissionExec => "Job submission could not be carried out"@,
        }
    }

    /// What the error says to the operator.
    pub fn message(&self) -> (text: String)
        ensures
            text@ == self.message_text(),
    {
        match self {
            ArrayifyError::InputNotFound => String::from_str("Provided path is not a directory"),
            ArrayifyError::MalformedInput => String::from_str("Input is not a well-formed table"),
            ArrayifyError::IncompletePair(id) => {
                let mut text = String::from_str("Missing R1 or R2 for ID: ");
                text.append(id.as_str());
                text
            },
            ArrayifyError::EmptyInput => String::from_str(
                "No valid file pairs found in the directory",
            ),
            ArrayifyError::SubmissionExec => String::from_str(
                "Job submission could not be carried out",
            ),
        }
    }
}

} // verus!
