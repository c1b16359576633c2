//! Error definition.

use vstd::prelude::*;

verus! {

/// Error of checking copyright.
///
/// What an operation outside the library reported is kept as the text of
/// that report.
#[derive(Debug)]
pub enum Error {
    /// The rewrite step left tracked files with changes.
    FilesChanged,
    /// Reading or writing failed: the phase it happened in, and the report.
    Io(&'static str, String),
    /// Output that should be text is not valid UTF-8: the report.
    Utf8(String),
    /// A subcommand of the version-control tool failed: what it printed.
    GitCommand(String),
    /// The configuration could not be parsed: the report.
    ParseConfig(String),
    /// No comment sign is configured for the file of this name.
    UnknownCommentSign(String),
}

impl Error {
    /// The message for the operator.
    pub open spec fn message_text(&self) -> Seq<char> {
        match self {
            Error::FilesChanged => "The copyright of some files have changed"@,
            Error::Io(phase, detail) => "I/O error while "@ + phase@ + ": "@ + detail@,
            Error::Utf8(detail) => detail@,
            Error::GitCommand(output) => "Failed to run git subcommand: "@ + output@,
            Error::ParseConfig(detail) => "Failed to parse config: "@ + detail@,
            Error::UnknownCommentSign(filename) => "No comment sign found for file "@ + filename@
                + ", please update the configuration"@,
        }
    }

    /// Render the error for the operator.
    pub fn message(&self) -> (text: String)
        ensures
            text@ == self.message_text(),
    {
        match self {
            Error::FilesChanged => "The copyright of some files have changed".to_owned(),
            Error::Io(phase, detail) => {
                let mut text = "I/O error while ".to_owned();
                text.append(phase);
                text.append(": ");
                text.append(detail.as_str());
                text
            },
            Error::Utf8(detail) => detail.clone(),
            Error::GitCommand(output) => {
                let mut text = "Failed to run git subcommand: ".to_owned();
                text.append(output.as_str());
                text
            },
            Error::ParseConfig(detail) => {
                let mut text = "Failed to parse config: ".to_owned();
                text.append(detail.as_str());
                text
            },
            Error::UnknownCommentSign(filename) => {
                let mut text = "No comment sign found for file ".to_owned();
                text.append(filename.as_str());
                text.append(", please update the configuration");
                text
            },
        }
    }
}

} // verus!
