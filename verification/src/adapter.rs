//! The save/load command surface: turns the outcome of the
//! operating-system file steps into the response handed to the
//! front end, with the exact error message for each failure.

use vstd::prelude::*;
use vstd::string::StringExecFns;

verus! {

/// Message owed when the file at the target path could not be
/// created or truncated; `cause` is the text of the OS error.
pub open spec fn create_failed_msg(cause: Seq<char>) -> Seq<char> {
    "Failed to create file: "@ + cause
}

/// Message owed when writing the content failed partway.
pub open spec fn write_failed_msg(cause: Seq<char>) -> Seq<char> {
    "Failed to write file: "@ + cause
}

/// Message owed when the file could not be read.
pub open spec fn read_failed_msg(cause: Seq<char>) -> Seq<char> {
    "Failed to read file: "@ + cause
}

/// `prefix` followed by `cause`, as one string.
fn prefixed(prefix: &str, cause: &str) -> (r: String)
    ensures
        r@ == prefix@ + cause@,
{
    let mut s = String::from_str(prefix);
    s.append(cause);
    s
}

/// How the operating-system steps of one save attempt ended.
/// A save first creates (or truncates) the file, then writes the
/// whole content; each step can fail with an OS cause string.
pub enum SaveOutcome {
    /// The file was created and the whole content was written.
    Written,
    /// Creating or truncating the file failed.
    CreateError(String),
    /// The file was created but writing the content failed.
    WriteError(String),
}

/// Response of the `save_roadmap` command: success exactly when the
/// file was written in full, else the error message for the step
/// that failed, carrying the OS cause verbatim.
pub fn save_response(outcome: SaveOutcome) -> (r: Result<(), String>)
    ensures
        (r is Ok) <==> (outcome is Written),
        outcome matches SaveOutcome::CreateError(cause) ==> r matches Err(m) && m@
            == create_failed_msg(cause@),
        outcome matches SaveOutcome::WriteError(cause) ==> r matches Err(m) && m@
            == write_failed_msg(cause@),
{
    match outcome {
        SaveOutcome::Written => Ok(()),
        SaveOutcome::CreateError(cause) => Err(prefixed("Failed to create file: ", cause.as_str())),
        SaveOutcome::WriteError(cause) => Err(prefixed("Failed to write file: ", cause.as_str())),
    }
}

/// Response of the `load_roadmap` command: the file's full content
/// when the read succeeded, else the read error message carrying the
/// OS cause verbatim.  A failed read never turns into an empty
/// success.
pub fn load_response(outcome: Result<String, String>) -> (r: Result<String, String>)
    ensures
        (r is Ok) <==> (outcome is Ok),
        outcome matches Ok(content) ==> r matches Ok(c) && c@ == content@,
        outcome matches Err(cause) ==> r matches Err(m) && m@ == read_failed_msg(cause@),
{
    match outcome {
        Ok(content) => Ok(content),
        Err(cause) => Err(prefixed("Failed to read file: ", cause.as_str())),
    }
}

} // verus!
