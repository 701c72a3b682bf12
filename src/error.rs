//! Errors of the rule engine.

use vstd::prelude::*;

verus! {

/// Why loading, compiling or persisting rules failed.
#[derive(Debug)]
pub enum AppError {
    /// Rules could not be read, parsed or written; the message says why.
    RulesLoadError(String),
    /// A regex rule's effective pattern does not compile.
    InvalidRegex(regex::Error),
    /// A rules file is not the JSON that was expected.
    JsonError(serde_json::Error),
}

} // verus!
