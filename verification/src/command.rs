//! Programs that the assistant runs, and what became of a run.
use vstd::prelude::*;

use crate::text::texts;

verus! {

/// A program with its arguments. No shell takes part: each argument reaches the
/// program as it stands.
pub struct CommandLine {
    pub program: String,
    pub args: Vec<String>,
}

impl CommandLine {
    /// The command runs `program` with `args`.
    pub open spec fn runs(&self, program: Seq<char>, args: Seq<Seq<char>>) -> bool {
        self.program@ == program && texts(self.args@) == args
    }
}

/// How a run ended.
pub enum CommandOutcome {
    /// The program could not be started.
    NotStarted,
    /// The program reported a failure.
    Failed,
    /// The program reported success, and wrote `stdout`.
    Succeeded { stdout: Vec<u8> },
}

} // verus!
