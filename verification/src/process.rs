//! Programs that have ended.

use vstd::prelude::*;
use crate::text::{trim, trimmed};

verus! {

/// What a program printed, and the code with which it ended. A program that a
/// signal ended has no code.
#[derive(Debug)]
pub struct ProcessOutput<S> {
    pub stdout: S,
    pub stderr: S,
    pub code: Option<i32>,
}

impl View for ProcessOutput<String> {
    type V = ProcessOutput<Seq<char>>;

    open spec fn view(&self) -> ProcessOutput<Seq<char>> {
        ProcessOutput { stdout: self.stdout@, stderr: self.stderr@, code: self.code }
    }
}

/// What a program printed, as it is reported when the program fails.
pub open spec fn streams_text(stdout: Seq<char>, stderr: Seq<char>) -> Seq<char> {
    "\nstdout: "@ + trimmed(stdout) + "\nstderr: "@ + trimmed(stderr)
}

/// What a program printed, as it is reported when the program fails.
pub fn streams(stdout: &str, stderr: &str) -> (r: String)
    ensures
        r@ == streams_text(stdout@, stderr@),
{
    let mut r = "\nstdout: ".to_string();
    r.append(trim(stdout).as_str());
    r.append("\nstderr: ");
    r.append(trim(stderr).as_str());
    r
}

} // verus!
