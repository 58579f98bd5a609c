//! Choice of the shell that runs a translation.

use vstd::prelude::*;
use crate::args::LsArgs;

verus! {

/// The shell that runs a command.
#[derive(Debug, Clone, Copy, PartialEq, Eq, Structural)]
pub enum Backend {
    Cmd,
    PowerShell,
}

impl Backend {
    /// The shell used when nothing asks for one: `cmd.exe`, which starts fastest.
    pub fn detect() -> (r: Backend)
        ensures
            r == Backend::Cmd,
    {
        Backend::Cmd
    }
}

/// How a run of the shell ended.
pub struct ExecutionResult {
    pub success: bool,
    pub exit_code: i32,
}

/// The shell that `args` selects: an explicit choice first, then PowerShell for
/// the formats it renders better, else the default.
pub fn select_backend(args: &LsArgs) -> (r: Backend)
    ensures
        r == (if args.use_powershell {
            Backend::PowerShell
        } else if args.use_cmd {
            Backend::Cmd
        } else if args.human_readable || args.long_format {
            Backend::PowerShell
        } else {
            Backend::Cmd
        }),
{
    if args.use_powershell {
        Backend::PowerShell
    } else if args.use_cmd {
        Backend::Cmd
    } else if args.human_readable || args.long_format {
        Backend::PowerShell
    } else {
        Backend::detect()
    }
}

/// The result of a finished run: an unknown exit code counts as -1.
pub fn finished(success: bool, code: Option<i32>) -> (r: ExecutionResult)
    ensures
        r.success == success,
        r.exit_code == (match code {
            Some(c) => c as int,
            None => -1,
        }),
{
    let exit_code = match code {
        Some(c) => c,
        None => -1,
    };
    ExecutionResult { success, exit_code }
}

} // verus!
