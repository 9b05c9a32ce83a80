//! Fatal-error value and the command selector.
//!
//! Every failure of plan generation is carried as a single human-readable
//! message and unwinds to the caller; nothing is retried.

use vstd::prelude::*;
use crate::names::str_eq;

verus! {

/// A fatal error, carrying a human-readable message.
#[derive(Debug)]
pub struct Error {
    pub msg: String,
}

impl Error {
    /// Wraps a message as an error.
    pub fn new(msg: String) -> (e: Error)
        ensures
            e.msg == msg,
    {
        Error { msg }
    }

    /// The human-readable message this error carries.
    pub fn message(&self) -> (m: &String)
        ensures
            m == self.msg,
    {
        &self.msg
    }
}

/// The two commands the tool understands.
#[derive(Debug, PartialEq, Eq)]
pub enum Task {
    /// Run the external executor against an existing plan file.
    Build,
    /// Generate the plan file.
    Create,
}

impl Task {
    /// Parses a subcommand word; anything but `build` or `create` is rejected.
    pub fn try_from(cmd: &str) -> (r: Result<Task, Error>)
        ensures
            cmd@ == "build"@ ==> (r matches Ok(t) && t is Build),
            cmd@ == "create"@ ==> (r matches Ok(t) && t is Create),
            cmd@ != "build"@ && cmd@ != "create"@ ==> (r matches Err(e) && e.msg@
                == "invalid command: "@ + cmd@),
    {
        proof {
            reveal_strlit("build");
            reveal_strlit("create");
            assert("build"@.len() != "create"@.len());
        }
        if str_eq(cmd, "build") {
            Ok(Task::Build)
        } else if str_eq(cmd, "create") {
            Ok(Task::Create)
        } else {
            let mut msg = String::new();
            msg.append("invalid command: ");
            msg.append(cmd);
            proof {
                assert(msg@ =~= "invalid command: "@ + cmd@);
            }
            Err(Error::new(msg))
        }
    }
}

} // verus!
