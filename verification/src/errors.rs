//! Classified errors of the dispatcher core.

use vstd::prelude::*;
use vstd::string::StringExecFns;

verus! {

/// Everything the processor can report: load-time failures (a native open
/// error, or one of the two ABI version mismatches) and dispatch-time
/// failures (an unknown command name, or a command whose execution failed).
///
/// Load-time errors name the library and, for a version mismatch, both the
/// value the host expected and the value the plugin declared.  A dispatch
/// failure names the command, its owning library, and the raw message text;
/// the underlying cause is logged by the embedder, not retained here.
#[derive(Debug)]
pub enum ProcessorError {
    CommandNotFound { command: String },
    CommandExecutionFailed { command: String, library: String, message: String },
    LoadError { library_name: String, message: String },
    LibraryRustCVersionMismatch {
        library_name: String,
        rustc_version: String,
        actual_rustc_version: String,
    },
    LibraryCoreVersionMismatch {
        library_name: String,
        core_version: String,
        actual_core_version: String,
    },
}

impl ProcessorError {
    /// The text an error renders to, for logs and operators.
    pub open spec fn describe_spec(self) -> Seq<char> {
        match self {
            ProcessorError::CommandNotFound { command } => "Command "@ + command@
                + " not found"@,
            ProcessorError::CommandExecutionFailed { command, library, message } => "Command "@
                + command@ + " (from library "@ + library@
                + ") errored with the following message: "@ + message@,
            ProcessorError::LoadError { library_name, message } => "Unable to load "@
                + library_name@ + ": "@ + message@,
            ProcessorError::LibraryRustCVersionMismatch {
                library_name,
                rustc_version,
                actual_rustc_version,
            } => "Library "@ + library_name@
                + " has a different rustc version than this core.\n\tExpected: "@
                + rustc_version@ + "\n\tActual: "@ + actual_rustc_version@,
            ProcessorError::LibraryCoreVersionMismatch {
                library_name,
                core_version,
                actual_core_version,
            } => "Library "@ + library_name@
                + " has a different core version than this core.\n\tExpected: "@ + core_version@
                + "\n\tActual: "@ + actual_core_version@,
        }
    }

    /// Render the error's text.
    pub fn describe(&self) -> (r: String)
        ensures
            r@ == self.describe_spec(),
    {
        match self {
            ProcessorError::CommandNotFound { command } => {
                let mut s = "Command ".to_owned();
                s.append(command.as_str());
                s.append(" not found");
                s
            },
            ProcessorError::CommandExecutionFailed { command, library, message } => {
                let mut s = "Command ".to_owned();
                s.append(command.as_str());
                s.append(" (from library ");
                s.append(library.as_str());
                s.append(") errored with the following message: ");
                s.append(message.as_str());
                s
            },
            ProcessorError::LoadError { library_name, message } => {
                let mut s = "Unable to load ".to_owned();
                s.append(library_name.as_str());
                s.append(": ");
                s.append(message.as_str());
                s
            },
            ProcessorError::LibraryRustCVersionMismatch {
                library_name,
                rustc_version,
                actual_rustc_version,
            } => {
                let mut s = "Library ".to_owned();
                s.append(library_name.as_str());
                s.append(" has a different rustc version than this core.\n\tExpected: ");
                s.append(rustc_version.as_str());
                s.append("\n\tActual: ");
                s.append(actual_rustc_version.as_str());
                s
            },
            ProcessorError::LibraryCoreVersionMismatch {
                library_name,
                core_version,
                actual_core_version,
            } => {
                let mut s = "Library ".to_owned();
                s.append(library_name.as_str());
                s.append(" has a different core version than this core.\n\tExpected: ");
                s.append(core_version.as_str());
                s.append("\n\tActual: ");
                s.append(actual_core_version.as_str());
                s
            },
        }
    }
}

} // verus!
