//! Supervision of one solver process: its command line, the steps of a run
//! from the request to the outcome, and the errors on the way.

use vstd::prelude::*;

use crate::sanitize::{clean_gurobi_log, default_banners, sanitized};
use crate::text::{
    chars_of, decimal, decimal_chars, split_words, string_of, strings_of, texts, views, words,
};

verus! {

/// What can go wrong with a run.
#[derive(Debug, PartialEq, Eq)]
pub enum SupervisorError {
    /// The command prefix holds no word.
    EmptyCommand,
    /// The process could not be started; the system's message.
    SpawnError(String),
    /// The process ended in failure; its exit code, where it has one, and
    /// all it wrote to standard error.
    ProcessFailure { code: Option<i32>, stderr: String },
    /// Waiting for the process failed; the system's message.
    WaitError(String),
    /// The process could not be ended: the system's message where its tool
    /// could not be started, else the tool's exit code and what it wrote to
    /// standard error.
    CancelFailure(String),
}

/// The program and the arguments that a process is started with.
#[derive(Debug, PartialEq, Eq)]
pub struct CommandLine {
    pub program: String,
    pub args: Vec<String>,
}

/// The arguments of a run: the words of the prefix after its first, the
/// script, and the words of the argument string.
pub open spec fn run_arguments(prefix: Seq<char>, script: Seq<char>, arg_string: Seq<char>) -> Seq<
    Seq<char>,
> {
    words(prefix).drop_first() + seq![script] + words(arg_string)
}

/// Builds the command line of a run. The first word of `command_prefix` is
/// the program and its other words are the first arguments; then comes
/// `script_path` as one argument, then the words of `arg_string`. A prefix
/// without a word is refused.
pub fn build_command(command_prefix: &str, script_path: &str, arg_string: &str) -> (r: Result<
    CommandLine,
    SupervisorError,
>)
    ensures
        words(command_prefix@).len() == 0 <==> r is Err,
        r matches Err(e) ==> e == SupervisorError::EmptyCommand,
        r matches Ok(cmd) ==> cmd.program@ == words(command_prefix@)[0] && texts(cmd.args@)
            == run_arguments(command_prefix@, script_path@, arg_string@),
{
    let mut prefix = split_words(&chars_of(command_prefix));
    if prefix.len() == 0 {
        return Err(SupervisorError::EmptyCommand);
    }
    let program = string_of(&prefix.remove(0));
    assert(views(prefix@) =~= words(command_prefix@).drop_first());
    let mut args = strings_of(&prefix);
    let ghost leading = texts(args@);
    args.push(String::from_str(script_path));
    assert(texts(args@) =~= leading + seq![script_path@]);
    let mut rest = strings_of(&split_words(&chars_of(arg_string)));
    let ghost before = texts(args@);
    let ghost after = texts(rest@);
    args.append(&mut rest);
    assert(texts(args@) =~= before + after);
    Ok(CommandLine { program, args })
}

/// The arguments with which the system's tool ends the process `pid` and
/// the processes it started, by force.
pub open spec fn kill_arguments(pid: u32) -> Seq<Seq<char>> {
    seq!["/PID"@, decimal(pid as nat), "/F"@, "/T"@]
}

/// The command line that ends the process `pid`, with the processes that it
/// started, by force.
pub fn kill_command(pid: u32) -> (cmd: CommandLine)
    ensures
        cmd.program@ == "taskkill"@,
        texts(cmd.args@) == kill_arguments(pid),
{
    let mut args: Vec<String> = Vec::new();
    args.push(String::from_str("/PID"));
    args.push(string_of(&decimal_chars(pid as usize)));
    args.push(String::from_str("/F"));
    args.push(String::from_str("/T"));
    assert(texts(args@) =~= kill_arguments(pid));
    CommandLine { program: String::from_str("taskkill"), args }
}

/// How a process ended.
#[derive(Clone, Copy, Debug, PartialEq, Eq)]
pub struct ExitReport {
    /// Whether the system counts the exit as a success.
    pub success: bool,
    /// The exit code; none where a signal ended the process.
    pub code: Option<i32>,
}

/// The decimal numeral of an integer, with a minus sign where it is negative.
pub open spec fn signed_decimal(n: int) -> Seq<char> {
    if n < 0 {
        seq!['-'] + decimal((-n) as nat)
    } else {
        decimal(n as nat)
    }
}

/// The text that names an exit code.
pub open spec fn code_text(code: Option<i32>) -> Seq<char> {
    match code {
        Some(c) => signed_decimal(c as int),
        None => "None"@,
    }
}

/// The message of a failed run: the exit code, then all of standard error.
pub open spec fn failure_message(code: Option<i32>, stderr: Seq<char>) -> Seq<char> {
    "Exit Code: "@ + code_text(code) + "\n"@ + stderr
}

/// The message of a process that could not be started.
pub open spec fn spawn_message(cause: Seq<char>) -> Seq<char> {
    "コマンド起動エラー: "@ + cause + "\n(設定のCommand Prefixを確認してください)"@
}

/// The message that stands for an error where it is reported as text.
pub open spec fn error_message(e: SupervisorError) -> Seq<char> {
    match e {
        SupervisorError::EmptyCommand => "Command prefix is empty"@,
        SupervisorError::SpawnError(cause) => spawn_message(cause@),
        SupervisorError::ProcessFailure { code, stderr } => failure_message(code, stderr@),
        SupervisorError::WaitError(cause) => cause@,
        SupervisorError::CancelFailure(cause) => cause@,
    }
}

fn signed_decimal_string(n: i32) -> (out: String)
    ensures
        out@ == signed_decimal(n as int),
{
    if n < 0 {
        let magnitude: i64 = -(n as i64);
        let mut out = String::from_str("-");
        proof {
            reveal_strlit("-");
            assert("-"@ =~= seq!['-']);
        }
        out.append(string_of(&decimal_chars(magnitude as usize)).as_str());
        out
    } else {
        string_of(&decimal_chars(n as usize))
    }
}

fn failure_text(code: Option<i32>, stderr: &str) -> (text: String)
    ensures
        text@ == failure_message(code, stderr@),
{
    let mut text = String::from_str("Exit Code: ");
    match code {
        Some(c) => text.append(signed_decimal_string(c).as_str()),
        None => text.append("None"),
    }
    text.append("\n");
    text.append(stderr);
    text
}

impl SupervisorError {
    /// The error as the text that is reported for it.
    pub fn message(&self) -> (text: String)
        ensures
            text@ == error_message(*self),
    {
        match self {
            SupervisorError::EmptyCommand => String::from_str("Command prefix is empty"),
            SupervisorError::SpawnError(cause) => {
                let mut text = String::from_str("コマンド起動エラー: ");
                text.append(cause.as_str());
                text.append("\n(設定のCommand Prefixを確認してください)");
                text
            },
            SupervisorError::ProcessFailure { code, stderr } => failure_text(
                *code,
                stderr.as_str(),
            ),
            SupervisorError::WaitError(cause) => cause.clone(),
            SupervisorError::CancelFailure(cause) => cause.clone(),
        }
    }
}

/// Whether `r` is the outcome of a run that ended with `exit` and wrote
/// `stdout` and `stderr`.
pub open spec fn is_outcome(
    r: Result<String, SupervisorError>,
    exit: ExitReport,
    stdout: Seq<char>,
    stderr: Seq<char>,
) -> bool {
    if exit.success {
        r matches Ok(shown) && shown@ == sanitized(stdout, default_banners())
    } else {
        r matches Err(SupervisorError::ProcessFailure { code, stderr: captured }) && code
            == exit.code && captured@ == stderr
    }
}

/// Settles a run once its process has ended and both streams are read to
/// their end. A success yields standard output as it is shown, without its
/// banner lines; a failure yields the exit code and all of standard error.
pub fn finish_run(exit: &ExitReport, stdout: &str, stderr: &str) -> (r: Result<
    String,
    SupervisorError,
>)
    ensures
        is_outcome(r, *exit, stdout@, stderr@),
{
    if exit.success {
        Ok(clean_gurobi_log(stdout))
    } else {
        Err(SupervisorError::ProcessFailure { code: exit.code, stderr: String::from_str(stderr) })
    }
}

/// How the request to end a process went.
#[derive(Debug, PartialEq, Eq)]
pub enum CancelEvent {
    /// The system's tool could not be started; the system's message.
    LaunchFailed { cause: String },
    /// The tool ran and ended; how, and what it wrote to standard error.
    Ended { exit: ExitReport, stderr: String },
}

/// Whether `r` is what a cancel returns after `event`. It is a success only
/// where the tool ran and ended in success. Where the tool could not be
/// started the failure carries the system's message; where the tool ended in
/// failure, as it does for a process that is no longer there, the failure
/// carries its exit code and what it wrote to standard error.
pub open spec fn is_cancel_outcome(r: Result<(), SupervisorError>, event: CancelEvent) -> bool {
    match event {
        CancelEvent::LaunchFailed { cause } => {
            r matches Err(SupervisorError::CancelFailure(kept)) && kept@ == cause@
        },
        CancelEvent::Ended { exit, stderr } => {
            if exit.success {
                r is Ok
            } else {
                r matches Err(SupervisorError::CancelFailure(kept)) && kept@ == failure_message(
                    exit.code,
                    stderr@,
                )
            }
        },
    }
}

/// Settles a cancel. A cancel that did not end the process is a failure
/// that is handed back to the one who asked; it is no event of a run, so a
/// run goes on until its process is found to have ended.
pub fn settle_cancel(event: CancelEvent) -> (r: Result<(), SupervisorError>)
    ensures
        is_cancel_outcome(r, event),
{
    match event {
        CancelEvent::LaunchFailed { cause } => Err(SupervisorError::CancelFailure(cause)),
        CancelEvent::Ended { exit, stderr } => {
            if exit.success {
                Ok(())
            } else {
                Err(SupervisorError::CancelFailure(failure_text(exit.code, stderr.as_str())))
            }
        },
    }
}

/// Where a run stands.
#[derive(Clone, Copy, Debug, PartialEq, Eq)]
pub enum RunState {
    /// Nothing was asked for yet.
    Idle,
    /// The process is being started.
    Starting,
    /// The process runs under this identifier, which was published.
    Running { pid: u32 },
    /// The run is over.
    Finished,
}

/// What happened to a run.
#[derive(Debug, PartialEq, Eq)]
pub enum RunEvent {
    /// A run was asked for.
    Requested { command_prefix: String, script_path: String, arg_string: String },
    /// The process was started.
    Spawned { pid: u32 },
    /// The process could not be started.
    SpawnFailed { cause: String },
    /// The process ended and both of its streams were read to their end.
    Exited { exit: ExitReport, stdout: String, stderr: String },
    /// Waiting for the process failed.
    WaitFailed { cause: String },
}

/// What is to be done for a run.
#[derive(Debug, PartialEq, Eq)]
pub enum RunAction {
    /// Start the process with this command line, its standard input closed
    /// and its two output streams piped.
    Spawn(CommandLine),
    /// Publish the identifier, read both streams and wait for the process.
    PublishAndWait { pid: u32 },
    /// Hand the outcome to the caller.
    Finish(Result<String, SupervisorError>),
    /// The event has no place in this state: do nothing.
    Ignore,
}

/// The state that follows `state` on `event`.
pub open spec fn next_state(state: RunState, event: RunEvent) -> RunState {
    match (state, event) {
        (RunState::Idle, RunEvent::Requested { command_prefix, script_path, arg_string }) => {
            if words(command_prefix@).len() == 0 {
                RunState::Finished
            } else {
                RunState::Starting
            }
        },
        (RunState::Starting, RunEvent::Spawned { pid }) => RunState::Running { pid },
        (RunState::Starting, RunEvent::SpawnFailed { cause }) => RunState::Finished,
        (RunState::Running { pid }, RunEvent::Exited { exit, stdout, stderr }) => {
            RunState::Finished
        },
        (RunState::Running { pid }, RunEvent::WaitFailed { cause }) => RunState::Finished,
        _ => state,
    }
}

/// Whether `event` in `state` has the identifier of the process published.
pub open spec fn publishes(state: RunState, event: RunEvent) -> bool {
    state is Starting && event is Spawned
}

/// How often an identifier is published while `events` arrive in turn,
/// beginning in `state`.
pub open spec fn publications(state: RunState, events: Seq<RunEvent>) -> nat
    decreases events.len(),
{
    if events.len() == 0 {
        0
    } else if publishes(state, events[0]) {
        1 + publications(next_state(state, events[0]), events.drop_first())
    } else {
        publications(next_state(state, events[0]), events.drop_first())
    }
}

/// Whatever happens to a run, and in whatever order, the identifier of its
/// process is published at most once, and never again once the process
/// runs or the run is over.
pub proof fn lemma_published_once(state: RunState, events: Seq<RunEvent>)
    ensures
        publications(state, events) <= 1,
        state is Running || state is Finished ==> publications(state, events) == 0,
    decreases events.len(),
{
    if events.len() > 0 {
        lemma_published_once(next_state(state, events[0]), events.drop_first());
    }
}

/// Takes a run one step on. A request in the idle state gives the command
/// line to start, or ends the run where the prefix is empty. The start of
/// the process gives its identifier to publish, once; a failed start ends
/// the run. The exit of the process, or a failed wait, ends the run with its
/// outcome. An event that has no place in the state changes nothing.
pub fn advance(state: RunState, event: RunEvent) -> (next: (RunState, RunAction))
    ensures
        next.0 == next_state(state, event),
        match (state, event) {
            (RunState::Idle, RunEvent::Requested { command_prefix, script_path, arg_string }) => {
                if words(command_prefix@).len() == 0 {
                    next.1 matches RunAction::Finish(Err(e)) && e == SupervisorError::EmptyCommand
                } else {
                    &&& next.1 matches RunAction::Spawn(cmd)
                    &&& cmd.program@ == words(command_prefix@)[0]
                    &&& texts(cmd.args@) == run_arguments(
                        command_prefix@,
                        script_path@,
                        arg_string@,
                    )
                }
            },
            (RunState::Starting, RunEvent::Spawned { pid }) => next.1 == RunAction::PublishAndWait {
                pid,
            },
            (RunState::Starting, RunEvent::SpawnFailed { cause }) => {
                next.1 matches RunAction::Finish(Err(SupervisorError::SpawnError(kept))) && kept@
                    == cause@
            },
            (RunState::Running { pid }, RunEvent::Exited { exit, stdout, stderr }) => {
                next.1 matches RunAction::Finish(r) && is_outcome(r, exit, stdout@, stderr@)
            },
            (RunState::Running { pid }, RunEvent::WaitFailed { cause }) => {
                next.1 matches RunAction::Finish(Err(SupervisorError::WaitError(kept))) && kept@
                    == cause@
            },
            _ => next.1 == RunAction::Ignore,
        },
        next.1 is PublishAndWait <==> publishes(state, event),
{
    match state {
        RunState::Idle => match event {
            RunEvent::Requested { command_prefix, script_path, arg_string } => {
                match build_command(
                    command_prefix.as_str(),
                    script_path.as_str(),
                    arg_string.as_str(),
                ) {
                    Ok(cmd) => (RunState::Starting, RunAction::Spawn(cmd)),
                    Err(e) => (RunState::Finished, RunAction::Finish(Err(e))),
                }
            },
            _ => (state, RunAction::Ignore),
        },
        RunState::Starting => match event {
            RunEvent::Spawned { pid } => (
                RunState::Running { pid },
                RunAction::PublishAndWait { pid },
            ),
            RunEvent::SpawnFailed { cause } => (
                RunState::Finished,
                RunAction::Finish(Err(SupervisorError::SpawnError(cause))),
            ),
            _ => (state, RunAction::Ignore),
        },
        RunState::Running { pid } => match event {
            RunEvent::Exited { exit, stdout, stderr } => (
                RunState::Finished,
                RunAction::Finish(finish_run(&exit, stdout.as_str(), stderr.as_str())),
            ),
            RunEvent::WaitFailed { cause } => (
                RunState::Finished,
                RunAction::Finish(Err(SupervisorError::WaitError(cause))),
            ),
            _ => (state, RunAction::Ignore),
        },
        RunState::Finished => (state, RunAction::Ignore),
    }
}

} // verus!
