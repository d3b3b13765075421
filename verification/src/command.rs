//! The outcome of a command that was run.
use vstd::prelude::*;

verus! {

#[derive(Debug, Clone)]
pub struct CommandOutput {
    pub status: i32,
    pub stdout: String,
    pub stderr: String,
}

impl CommandOutput {
    pub open spec fn ok(self) -> bool {
        self.status == 0
    }

    /// Whether the command succeeded.
    pub fn success(&self) -> (r: bool)
        ensures
            r == self.ok(),
    {
        self.status == 0
    }
}

} // verus!
