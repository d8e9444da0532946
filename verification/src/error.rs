//! The failures the library reports. Every failure is descriptive: `message`
//! renders each variant as text that names the script or field concerned.

use vstd::prelude::*;
use vstd::string::StringExecFns;

verus! {

/// Why resolving, running or synchronising scripts failed.
#[derive(Clone, Debug)]
pub enum ExecError {
    /// The script has neither inline source nor a path.
    NoSource { script: String },
    /// The script names a path whose contents could not be read.
    ReadFailure { script: String, detail: String },
    /// The Lua runtime reported an error while running the script.
    ScriptFailure { script: String, detail: String },
    /// A field value could not be injected as a Lua global.
    InjectFailure { field: String, detail: String },
    /// A Lua global was absent, of an unsupported type, or unreadable.
    ReadBackFailure { field: String, detail: String },
}

/// The text `message` renders an error as.
pub open spec fn spec_message(e: ExecError) -> Seq<char> {
    match e {
        ExecError::NoSource { script } => "No code found for '"@ + script@
            + "'\nexpected at least one of: 'inline', 'path'"@,
        ExecError::ReadFailure { script, detail } => "Failed to read script `"@ + script@ + "`:\n"@
            + detail@,
        ExecError::ScriptFailure { script, detail } => "Script `"@ + script@ + "` failed: "@
            + detail@,
        ExecError::InjectFailure { field, detail } => "Failed to inject field `"@ + field@
            + "` as a Lua variable: "@ + detail@,
        ExecError::ReadBackFailure { field, detail } => "Failed to read global `"@ + field@
            + "` from Lua: "@ + detail@,
    }
}

impl ExecError {
    /// A descriptive, human-readable account of the failure.
    pub fn message(&self) -> (r: String)
        ensures
            r@ == spec_message(*self),
    {
        match self {
            ExecError::NoSource { script } => String::from_str("No code found for '").concat(
                script.as_str(),
            ).concat("'\nexpected at least one of: 'inline', 'path'"),
            ExecError::ReadFailure { script, detail } => String::from_str(
                "Failed to read script `",
            ).concat(script.as_str()).concat("`:\n").concat(detail.as_str()),
            ExecError::ScriptFailure { script, detail } => String::from_str("Script `").concat(
                script.as_str(),
            ).concat("` failed: ").concat(detail.as_str()),
            ExecError::InjectFailure { field, detail } => String::from_str(
                "Failed to inject field `",
            ).concat(field.as_str()).concat("` as a Lua variable: ").concat(detail.as_str()),
            ExecError::ReadBackFailure { field, detail } => String::from_str(
                "Failed to read global `",
            ).concat(field.as_str()).concat("` from Lua: ").concat(detail.as_str()),
        }
    }
}

} // verus!
