//! The error taxonomy of the history core.
//!
//! Every failure is a typed value returned to the caller; the core never
//! terminates the process. `Input` stands for an empty selection line (user
//! cancellation), `ParseInt` for a malformed link token; the carrying
//! variants hold the text of a collaborator's failure report.

use vstd::prelude::*;

verus! {

/// One error of the history core or of a collaborator around it.
#[derive(Debug)]
pub enum ShiError {
    /// An input/output failure, with the collaborator's report.
    Io(String),
    /// A storage-engine failure, with the engine's report.
    Db(String),
    /// A selection line that is not a link token.
    ParseInt,
    /// A failure to take back an export buffer, with the report.
    IntoInner(String),
    /// Exported bytes that are not valid UTF-8, with the report.
    FromUtf8(String),
    /// A copy program that could not be spawned or written to.
    Copy,
    /// An empty selection line: the user cancelled.
    Input,
}

impl ShiError {
    /// The message shown to the user for this error.
    pub fn message(&self) -> (r: String)
        ensures
            match self {
                ShiError::Io(s) => r@ == s@,
                ShiError::Db(s) => r@ == s@,
                ShiError::ParseInt => r@ == "Cannot parse input as link."@,
                ShiError::IntoInner(s) => r@ == s@,
                ShiError::FromUtf8(s) => r@ == s@,
                ShiError::Copy => r@ == "Cannot connect to the clipboard."@,
                ShiError::Input => r@ == "Exit."@,
            },
    {
        match self {
            ShiError::Io(s) => s.clone(),
            ShiError::Db(s) => s.clone(),
            ShiError::ParseInt => String::from_str("Cannot parse input as link."),
            ShiError::IntoInner(s) => s.clone(),
            ShiError::FromUtf8(s) => s.clone(),
            ShiError::Copy => String::from_str("Cannot connect to the clipboard."),
            ShiError::Input => String::from_str("Exit."),
        }
    }
}

} // verus!
