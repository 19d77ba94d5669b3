//! Commands of the host: what is run, and what comes of it.

use vstd::prelude::*;

use crate::error::{seen, ErrorKind, Fault, SessionError};
use crate::text::texts;

verus! {

/// A program with its arguments. Without a limit of its own, the runner's limit
/// on the time holds.
#[derive(Debug, Clone, PartialEq, Eq)]
pub struct CommandSpec {
    pub program: String,
    pub args: Vec<String>,
    /// The limit on the time, in milliseconds.
    pub timeout: Option<u64>,
}

pub struct CommandView {
    pub program: Seq<char>,
    pub args: Seq<Seq<char>>,
    pub timeout: Option<u64>,
}

impl View for CommandSpec {
    type V = CommandView;

    open spec fn view(&self) -> CommandView {
        CommandView { program: self.program@, args: texts(self.args@), timeout: self.timeout }
    }
}

/// A program with these arguments.
pub open spec fn command_line(program: Seq<char>, args: Seq<Seq<char>>) -> CommandView {
    CommandView { program, args, timeout: None }
}

/// A program with these arguments and a limit on the time.
pub open spec fn limited(program: Seq<char>, args: Seq<Seq<char>>, timeout: u64) -> CommandView {
    CommandView { program, args, timeout: Some(timeout) }
}

impl CommandSpec {
    /// A program without arguments.
    pub fn new(program: &str) -> (command: CommandSpec)
        ensures
            command@ == command_line(program@, Seq::empty()),
    {
        let command = CommandSpec { program: program.to_owned(), args: Vec::new(), timeout: None };
        assert(command@.args =~= Seq::empty());
        command
    }

    /// Adds an argument.
    pub fn arg(self, text: &str) -> (command: CommandSpec)
        ensures
            command@ == (CommandView { args: self@.args.push(text@), ..self@ }),
    {
        let mut command = self;
        command.args.push(text.to_owned());
        assert(command@.args =~= self@.args.push(text@));
        command
    }

    /// Sets the limit on the time, in milliseconds.
    pub fn within(self, timeout: u64) -> (command: CommandSpec)
        ensures
            command@ == (CommandView { timeout: Some(timeout), ..self@ }),
    {
        let mut command = self;
        command.timeout = Some(timeout);
        command
    }
}

/// What a program that ended left.
#[derive(Debug, Clone, PartialEq, Eq)]
pub struct CommandOutput {
    pub status: i32,
    pub stdout: Vec<u8>,
}

pub struct OutputView {
    pub status: i32,
    pub stdout: Seq<u8>,
}

impl View for CommandOutput {
    type V = OutputView;

    open spec fn view(&self) -> OutputView {
        OutputView { status: self.status, stdout: self.stdout@ }
    }
}

/// Why a program did not end by itself.
#[derive(Debug, Clone, Copy, PartialEq, Eq, Structural)]
pub enum RunnerErrorKind {
    Timeout,
    Cancelled,
    Spawn,
    Io,
}

/// Where a run stands: whether it was cancelled, and how many milliseconds are
/// left of it.
#[derive(Debug, Clone, Copy, PartialEq, Eq, Structural)]
pub struct RunState {
    pub cancelled: bool,
    pub remaining: u64,
}

/// What comes of running a program.
pub type Run = Result<CommandOutput, RunnerErrorKind>;

pub type RunView = Result<OutputView, RunnerErrorKind>;

pub open spec fn run_view(run: Run) -> RunView {
    match run {
        Ok(output) => Ok(output@),
        Err(kind) => Err(kind),
    }
}

/// The class of the failure to run a program.
pub open spec fn runner_failure(kind: RunnerErrorKind) -> ErrorKind {
    match kind {
        RunnerErrorKind::Timeout | RunnerErrorKind::Cancelled => ErrorKind::TimedOut,
        RunnerErrorKind::Spawn => ErrorKind::NotFound,
        RunnerErrorKind::Io => ErrorKind::Other,
    }
}

/// The output of a program that succeeded.
pub open spec fn output_of(run: RunView) -> Result<Seq<u8>, Fault> {
    match run {
        Ok(output) => if output.status == 0 {
            Ok(output.stdout)
        } else {
            Err((ErrorKind::Other, "desktop adapter command failed"@))
        },
        Err(kind) => Err(
            (runner_failure(kind), "desktop adapter command could not complete"@),
        ),
    }
}

pub fn command_output(run: Run) -> (output: Result<Vec<u8>, SessionError>)
    ensures
        seen(output) == output_of(run_view(run)),
{
    match run {
        Ok(output) => if output.status == 0 {
            Ok(output.stdout)
        } else {
            Err(SessionError::new(ErrorKind::Other, "desktop adapter command failed"))
        },
        Err(kind) => {
            let class = match kind {
                RunnerErrorKind::Timeout | RunnerErrorKind::Cancelled => ErrorKind::TimedOut,
                RunnerErrorKind::Spawn => ErrorKind::NotFound,
                RunnerErrorKind::Io => ErrorKind::Other,
            };
            Err(SessionError::new(class, "desktop adapter command could not complete"))
        },
    }
}

/// Which runs can come of which command lines. The same command line may end in
/// another way the next time.
pub type Runs = spec_fn(CommandView, RunView) -> bool;

/// The runs that can come of a runner.
pub open spec fn runs_of<R: FnOnce(&CommandSpec) -> Run>(runner: R) -> Runs {
    |command: CommandView, run: RunView| ran(runner, command, run)
}

/// Whether a runner runs a program.
pub open spec fn grants<R: FnOnce(&CommandSpec) -> Run>(runner: R, line: CommandView) -> bool {
    forall|command: &CommandSpec|
        command@ == line ==> #[trigger] call_requires(runner, (command,))
}

/// Whether a runner runs all of these programs.
pub open spec fn grants_all<R: FnOnce(&CommandSpec) -> Run>(
    runner: R,
    lines: spec_fn(CommandView) -> bool,
) -> bool {
    forall|command: &CommandSpec|
        lines(command@) ==> #[trigger] call_requires(runner, (command,))
}

/// Whether a run of a program ended in this way.
pub open spec fn ran<R: FnOnce(&CommandSpec) -> Run>(
    runner: R,
    command: CommandView,
    run: RunView,
) -> bool {
    exists|spec: &CommandSpec, result: Run|
        #[trigger] call_ensures(runner, (spec,), result) && spec@ == command && run_view(result)
            == run
}

/// Whether running a program can lead to an output, or to the failure to give one.
pub open spec fn came_of(
    runs: Runs,
    command: CommandView,
    outcome: Result<Seq<u8>, Fault>,
) -> bool {
    exists|run: RunView| #[trigger] runs(command, run) && output_of(run) == outcome
}

/// Whether a program can give some output.
pub open spec fn succeeded(runs: Runs, command: CommandView) -> bool {
    exists|output: Seq<u8>| #[trigger] came_of(runs, command, Ok::<Seq<u8>, Fault>(output))
}

/// Whether running a program leads to a result: to the failure to give an output,
/// or to what follows from its output.
pub open spec fn leads<T>(
    runs: Runs,
    command: CommandView,
    result: Result<T, Fault>,
    next: spec_fn(Seq<u8>) -> bool,
) -> bool {
    exists|outcome: Result<Seq<u8>, Fault>| #[trigger]
        came_of(runs, command, outcome) && match outcome {
            Ok(output) => next(output),
            Err(fault) => result == Err::<T, Fault>(fault),
        }
}

/// Whether a change may be made, once, with its own command line alone, and what
/// follows from it may be read when the change was accepted, and not before.
pub open spec fn may_change<
    C: FnOnce(&CommandSpec) -> Run,
    R: FnOnce(&CommandSpec) -> Run,
>(
    change: C,
    runner: R,
    line: Result<CommandView, Fault>,
    readings: spec_fn(CommandView) -> bool,
) -> bool {
    line matches Ok(line) ==> {
        &&& grants(change, line)
        &&& succeeded(runs_of(change), line) ==> grants_all(runner, readings)
    }
}

/// Runs a program and takes its output.
pub fn run<R: Fn(&CommandSpec) -> Run>(runner: &R, command: CommandSpec) -> (output: Result<
    Vec<u8>,
    SessionError,
>)
    requires
        grants(*runner, command@),
    ensures
        came_of(runs_of(*runner), command@, seen(output)),
{
    let result = runner(&command);
    assert(runs_of(*runner)(command@, run_view(result)));
    command_output(result)
}

/// Runs a program and takes its output; the runner runs nothing else.
pub fn run_once<R: FnOnce(&CommandSpec) -> Run>(runner: R, command: CommandSpec) -> (output: Result<
    Vec<u8>,
    SessionError,
>)
    requires
        grants(runner, command@),
    ensures
        came_of(runs_of(runner), command@, seen(output)),
{
    let result = runner(&command);
    assert(runs_of(runner)(command@, run_view(result)));
    command_output(result)
}

} // verus!
