//! Why a build fails, and how the user is told.

use vstd::prelude::*;
use vstd::string::StringExecFns;
use crate::module::not_found;

verus! {

/// What is wrong with a `require` in a module.
#[derive(Clone, Debug)]
pub struct RequireError {
    pub value: String,
}

/// What the message of a `RequireError` starts with.
pub open spec fn require_error_text(value: Seq<char>) -> Seq<char> {
    "RequireError: "@ + value
}

impl RequireError {
    /// An error with the given account of what is wrong.
    pub fn new(value: String) -> (error: Self)
        ensures
            error.value == value,
    {
        Self { value }
    }

    /// The account of what is wrong.
    pub fn description(&self) -> (value: &str)
        ensures
            value@ == self.value@,
    {
        self.value.as_str()
    }

    /// The error as one line: `RequireError: ` and the account.
    pub fn message(&self) -> (line: String)
        ensures
            line@ == require_error_text(self.value@),
    {
        let mut line = String::from_str("RequireError: ");
        line.append(self.value.as_str());
        line
    }
}

/// Why a build was given up.
#[derive(Debug)]
pub enum BundleError {
    /// No file stands for the module.
    ModuleNotFound { key: String },
    /// The module's source is no Lua.
    ParseFailure { key: String, message: String },
    /// The module holds a `require` that cannot be followed.
    RewriteFailure(RequireError),
    /// The data module's text is no JSON.
    JsonFailure { key: String, message: String },
    /// A file could not be read.
    IoFailure { path: String, message: String },
}

/// A message with the key of the module it is about before it.
pub open spec fn keyed(key: Seq<char>, message: Seq<char>) -> Seq<char> {
    "'"@ + key + "': "@ + message
}

/// The line that tells of an error.
pub open spec fn error_text(error: BundleError) -> Seq<char> {
    match error {
        BundleError::ModuleNotFound { key } => not_found(key@),
        BundleError::ParseFailure { key, message } => keyed(key@, message@),
        BundleError::RewriteFailure(inner) => require_error_text(inner.value@),
        BundleError::JsonFailure { key, message } => keyed(key@, message@),
        BundleError::IoFailure { path, message } => path@ + ": "@ + message@,
    }
}

/// The line that tells the user that a build has failed.
pub open spec fn failure_text(error: BundleError) -> Seq<char> {
    "Problem generating bundle: "@ + error_text(error)
}

/// Writes `'<key>': <message>`.
pub fn keyed_message(key: &str, message: &str) -> (line: String)
    ensures
        line@ == keyed(key@, message@),
{
    let mut line = String::from_str("'");
    line.append(key);
    line.append("': ");
    line.append(message);
    line
}

impl BundleError {
    /// The error as one line, with the module or the path it is about.
    pub fn message(&self) -> (line: String)
        ensures
            line@ == error_text(*self),
    {
        match self {
            BundleError::ModuleNotFound { key } => {
                let mut line = String::from_str("Module '");
                line.append(key.as_str());
                line.append("' not found");
                line
            },
            BundleError::ParseFailure { key, message } => keyed_message(
                key.as_str(),
                message.as_str(),
            ),
            BundleError::RewriteFailure(inner) => inner.message(),
            BundleError::JsonFailure { key, message } => keyed_message(
                key.as_str(),
                message.as_str(),
            ),
            BundleError::IoFailure { path, message } => {
                let mut line = path.clone();
                line.append(": ");
                line.append(message.as_str());
                line
            },
        }
    }

    /// What the user is told: the phase that failed, then the error.
    pub fn report(&self) -> (line: String)
        ensures
            line@ == failure_text(*self),
    {
        let mut line = String::from_str("Problem generating bundle: ");
        let message = self.message();
        line.append(message.as_str());
        line
    }
}

} // verus!
