//! The error type of the library.

use vstd::prelude::*;

verus! {

/// Errors of the download pipeline. Errors that come from the operating system,
/// from JSON decoding or from the terminal prompt carry their message as text.
#[derive(Debug, PartialEq, Eq)]
pub enum DlpError {
    MissingDependency(String),
    ProcessExecution(String),
    YtDlpFailed { code: i32, stderr: String },
    JsonParse(String),
    MissingUrl,
    InvalidQuality(String),
    PresetNotFound(String),
    ConfigParse(String),
    Cancelled,
    PromptError(String),
}

/// Results of the library.
pub type Result<T> = core::result::Result<T, DlpError>;

} // verus!
