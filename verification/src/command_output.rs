//! What a wrapped command printed and its exit status, and how an error is reported as
//! such an output.

use vstd::prelude::*;
use vstd::utf8::encode_utf8;
use crate::error::{Error, error_message};
use crate::text::utf8_bytes;

verus! {

/// What a command printed, and its exit status.
#[derive(Debug, Clone)]
pub struct CommandOutput {
    pub stdout: Vec<u8>,
    pub stderr: Vec<u8>,
    pub status: i32,
}

impl CommandOutput {
    /// A command that printed nothing and succeeded.
    pub fn new_ok() -> (res: CommandOutput)
        ensures
            res.stdout@ == Seq::<u8>::empty(),
            res.stderr@ == Seq::<u8>::empty(),
            res.status == 0,
    {
        CommandOutput { stdout: Vec::new(), stderr: Vec::new(), status: 0 }
    }

    /// The output of a command that ran, or, for an error, an output that prints the
    /// error's message on the error stream and fails with status 1.
    pub fn from_result(result: Result<CommandOutput, Error>) -> (res: CommandOutput)
        ensures
            match result {
                Ok(o) => res.stdout@ == o.stdout@ && res.stderr@ == o.stderr@ && res.status
                    == o.status,
                Err(e) => res.stdout@ == Seq::<u8>::empty() && res.stderr@ == encode_utf8(
                    error_message(e@),
                ) && res.status == 1,
            },
    {
        match result {
            Ok(output) => output,
            Err(err) => {
                let message = err.message();
                CommandOutput {
                    stdout: Vec::new(),
                    stderr: utf8_bytes(message.as_str()),
                    status: 1,
                }
            },
        }
    }
}

/// What a command printed, and its exit code.
#[derive(Debug)]
pub struct RunResult {
    pub stdout: Vec<u8>,
    pub stderr: Vec<u8>,
    pub exit_code: i32,
}

impl RunResult {
    /// A command that printed nothing and succeeded.
    pub fn new_success() -> (res: RunResult)
        ensures
            res.stdout@ == Seq::<u8>::empty(),
            res.stderr@ == Seq::<u8>::empty(),
            res.exit_code == 0,
    {
        RunResult { stdout: Vec::new(), stderr: Vec::new(), exit_code: 0 }
    }

    /// A command that failed with `error`: its message on the error stream, exit code 1.
    pub fn new_error(error: Error) -> (res: RunResult)
        ensures
            res.stdout@ == Seq::<u8>::empty(),
            res.stderr@ == encode_utf8(error_message(error@)),
            res.exit_code == 1,
    {
        let message = error.message();
        RunResult { stdout: Vec::new(), stderr: utf8_bytes(message.as_str()), exit_code: 1 }
    }

    /// A command that failed with the message `error`, exit code 1.
    pub fn new_error_str(error: &str) -> (res: RunResult)
        ensures
            res.stdout@ == Seq::<u8>::empty(),
            res.stderr@ == encode_utf8(error@),
            res.exit_code == 1,
    {
        RunResult { stdout: Vec::new(), stderr: utf8_bytes(error), exit_code: 1 }
    }
}

} // verus!
