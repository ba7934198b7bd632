//! What the system functions of the language give back about a process, and the
//! shell command lines they build.

use vstd::prelude::*;
use crate::text::{owned, append_str, usize_to_string, decimal};

verus! {

/// The outcome of running a process.
#[derive(Debug, Clone)]
pub struct ProcessResult {
    pub exit_code: i32,
    pub stdout: String,
    pub stderr: String,
    pub success: bool,
    pub pid: Option<String>,
    pub signal: Option<i32>,
}

impl ProcessResult {
    /// A finished process: it succeeded exactly when it exited with 0.
    pub fn new(exit_code: i32, stdout: String, stderr: String) -> (r: Self)
        ensures
            r.exit_code == exit_code,
            r.stdout@ == stdout@,
            r.stderr@ == stderr@,
            r.success == (exit_code == 0),
            r.pid is None,
            r.signal is None,
    {
        ProcessResult { exit_code, stdout, stderr, success: exit_code == 0, pid: None, signal: None }
    }
}

/// The shell command that pipes the output of `first` into `second`.
pub fn pipe_command(first: &str, second: &str) -> (r: String)
    ensures
        r@ == first@ + " | "@ + second@,
{
    let mut r = owned(first);
    append_str(&mut r, " | ");
    append_str(&mut r, second);
    r
}

/// The shell command that runs `command` with its output sent to `stdout_file` and,
/// when given, its errors to `stderr_file`.
pub fn redirect_command(command: &str, stdout_file: &str, stderr_file: Option<&str>) -> (r: String)
    ensures
        r@ == match stderr_file {
            Some(e) => command@ + " > "@ + stdout_file@ + " 2> "@ + e@,
            None => command@ + " > "@ + stdout_file@,
        },
{
    let mut r = owned(command);
    append_str(&mut r, " > ");
    append_str(&mut r, stdout_file);
    if let Some(e) = stderr_file {
        append_str(&mut r, " 2> ");
        append_str(&mut r, e);
    }
    r
}

/// The shell command that runs `command` for at most `seconds`: `timeout N command`
/// on Windows, `timeout Ns command` elsewhere.
pub fn timeout_command(seconds: u64, command: &str, windows: bool) -> (r: String)
    ensures
        r@ == "timeout "@ + decimal(seconds as nat) + (if windows { " "@ } else { "s "@ }) + command@,
{
    let mut r = owned("timeout ");
    let digits = u64_to_string(seconds);
    append_str(&mut r, digits.as_str());
    if windows {
        append_str(&mut r, " ");
    } else {
        append_str(&mut r, "s ");
    }
    append_str(&mut r, command);
    r
}

fn u64_to_string(n: u64) -> (r: String)
    ensures
        r@ == decimal(n as nat),
    decreases n,
{
    if n <= usize::MAX as u64 {
        usize_to_string(n as usize)
    } else {
        let lo = (n % 10) as usize;
        let hi = u64_to_string(n / 10);
        let mut r = hi;
        let d = usize_to_string(lo);
        append_str(&mut r, d.as_str());
        proof {
            assert(decimal(lo as nat) == seq![crate::text::digit_char(lo as nat)]);
        }
        r
    }
}

/// What `system_status` reports of a process, given whether the machine still
/// holds it.
pub fn process_status(known: bool) -> (r: &'static str)
    ensures
        r@ == (if known { "running"@ } else { "not_found"@ }),
{
    if known {
        "running"
    } else {
        "not_found"
    }
}

} // verus!
