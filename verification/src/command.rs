//! What the output of a finished command means: what it printed, or its complaint.

use vstd::prelude::*;

use crate::strs::{concat, trim, trimmed};

verus! {

/// What a command that failed complains of: what it said on its error stream, else that it
/// exited with its status.
pub open spec fn complaint_of(said: Seq<char>, name: Seq<char>, status: Seq<char>) -> Seq<char> {
    if said.len() == 0 {
        name + " exited with "@ + status
    } else {
        said
    }
}

/// See `complaint_of`; `said` is the trimmed error stream.
pub fn complaint(said: &str, name: &str, status: &str) -> (r: String)
    ensures
        r@ == complaint_of(said@, name@, status@),
{
    if said.is_empty() {
        let head = concat(name, " exited with ");
        concat(head.as_str(), status)
    } else {
        said.to_owned()
    }
}

/// The result of a finished command: what it printed when it succeeded, else its complaint
/// (its error stream without surrounding whitespace, or its status when that says
/// nothing).
pub fn command_output(success: bool, stdout: String, stderr: &str, name: &str, status: &str) -> (r:
    Result<String, String>)
    ensures
        success ==> (r matches Ok(out) && out@ == stdout@),
        !success ==> (r matches Err(e) && e@ == complaint_of(trimmed(stderr@), name@, status@)),
{
    if success {
        Ok(stdout)
    } else {
        let said = trim(stderr);
        Err(complaint(said.as_str(), name, status))
    }
}

/// The result of a finished command whose answer is one line: what it printed, trimmed, when
/// it succeeded, else its complaint.
pub fn trimmed_output(success: bool, stdout: &str, stderr: &str, name: &str, status: &str) -> (r:
    Result<String, String>)
    ensures
        success ==> (r matches Ok(out) && out@ == trimmed(stdout@)),
        !success ==> (r matches Err(e) && e@ == complaint_of(trimmed(stderr@), name@, status@)),
{
    if success {
        Ok(trim(stdout))
    } else {
        command_output(false, String::new(), stderr, name, status)
    }
}

} // verus!
