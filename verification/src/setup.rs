//! Installing and registering the virtual devices: each procedure runs
//! external programs one after another and decides from their exit status
//! what comes next. The decisions are here; running the programs is not.

use vstd::prelude::*;

verus! {

/// An external program to run.
pub struct Command {
    /// The program, looked up on the search path unless it is a path.
    pub program: String,
    /// Its arguments, in order.
    pub args: Vec<String>,
    /// Run with administrator rights (one elevation prompt).
    pub elevated: bool,
    /// Keep what it writes to standard output and standard error (to log the
    /// one and report the other) rather than let it through.
    pub capture_output: bool,
}

/// The characters of each argument.
pub open spec fn args_view(args: Seq<String>) -> Seq<Seq<char>> {
    args.map_values(|a: String| a@)
}

/// `cmd` runs `program` with `args`, elevated or not, its output captured
/// or not.
pub open spec fn is_command(
    cmd: Command,
    program: Seq<char>,
    args: Seq<Seq<char>>,
    elevated: bool,
    capture_output: bool,
) -> bool {
    &&& cmd.program@ == program
    &&& args_view(cmd.args@) == args
    &&& cmd.elevated == elevated
    &&& cmd.capture_output == capture_output
}

/// How a program that was run ended.
pub struct ExitReport {
    /// It exited with status success.
    pub success: bool,
    /// Its exit code, when it has one.
    pub code: Option<i32>,
    /// What it wrote to standard error.
    pub stderr: Vec<u8>,
}

/// Why a procedure failed.
#[derive(Debug)]
pub enum SetupError {
    /// A file the procedure needs is not installed.
    PackageMissing,
    /// A program exited with failure; its exit code, if any.
    Exit(Option<i32>),
    /// `pactl load-module` failed; what it wrote to standard error.
    LoadModule(Vec<u8>),
}

/// The next thing to do.
pub enum SetupStep {
    /// Run this program and report how it ended.
    Run(Command),
    /// Find the installed files the procedure needs and report them.
    Locate,
    /// Wait this many seconds, then report that the wait is over.
    Wait(u64),
    /// The procedure is over, with this result.
    Done(Result<(), SetupError>),
}

/// A command from a program name and argument literals.
pub fn command(program: &str, args: &[&str], elevated: bool, capture_output: bool) -> (r: Command)
    ensures
        r.program@ == program@,
        r.args@.len() == args@.len(),
        forall|i: int| 0 <= i < args@.len() ==> #[trigger] r.args@[i]@ == args@[i]@,
        r.elevated == elevated,
        r.capture_output == capture_output,
{
    let mut v: Vec<String> = Vec::new();
    let mut i: usize = 0;
    while i < args.len()
        invariant
            i <= args@.len(),
            v@.len() == i,
            forall|j: int| 0 <= j < i ==> #[trigger] v@[j]@ == args@[j]@,
        decreases args@.len() - i,
    {
        v.push(args[i].to_owned());
        i = i + 1;
    }
    Command { program: program.to_owned(), args: v, elevated, capture_output }
}

} // verus!
