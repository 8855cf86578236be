//! Bookkeeping of command files: which lines are run, how each result is
//! counted, when a run stops, and whether it failed. Running each command is
//! the caller's, handed in as a closure.
use vstd::prelude::*;

use crate::text::{chars_of, starts_with_str};

verus! {

/// What the session loop does after a command.
#[derive(Debug, Clone, Copy, PartialEq, Eq, Structural)]
pub enum CommandAction {
    Continue,
    Exit,
}

/// How a command file treats a failing line.
#[derive(Debug, Clone, Copy, PartialEq, Eq, Structural)]
pub enum CommandFileErrorMode {
    FailFast,
    ContinueOnError,
}

/// How a session import combines with the current session.
#[derive(Debug, Clone, Copy, PartialEq, Eq, Structural)]
pub enum SessionImportMode {
    Merge,
    Replace,
}

pub fn session_import_mode_label(mode: SessionImportMode) -> (s: &'static str)
    ensures
        s@ == match mode {
            SessionImportMode::Merge => "merge"@,
            SessionImportMode::Replace => "replace"@,
        },
{
    match mode {
        SessionImportMode::Merge => "merge",
        SessionImportMode::Replace => "replace",
    }
}

/// Counters of one command file run.
#[derive(Debug, Clone, Copy, PartialEq, Eq, Structural)]
pub struct CommandFileReport {
    pub total: usize,
    pub executed: usize,
    pub succeeded: usize,
    pub failed: usize,
    pub halted_early: bool,
}

/// What became of one line of a command file.
#[derive(Debug, Clone, Copy, PartialEq, Eq, Structural)]
pub enum CommandLineResult {
    /// The line does not start with `/` and was not run.
    NotACommand,
    /// The command ran and the session goes on.
    Continued,
    /// The command ran and asked to exit.
    Exited,
    /// The command failed.
    Errored,
}

/// A fresh report for a file of `total` lines.
pub fn new_command_file_report(total: usize) -> (r: CommandFileReport)
    ensures
        r == (CommandFileReport { total, executed: 0, succeeded: 0, failed: 0, halted_early: false }),
{
    CommandFileReport { total, executed: 0, succeeded: 0, failed: 0, halted_early: false }
}

/// Only lines that start with `/` are run.
pub fn is_command_line(command: &str) -> (b: bool)
    ensures
        b == crate::text::starts_with(command@, "/"@),
{
    starts_with_str(&chars_of(command), "/")
}

/// Whether `result` stops the file: an exit always does, a failure or a
/// non-command line does in fail-fast mode.
pub open spec fn stops(mode: CommandFileErrorMode, result: CommandLineResult) -> bool {
    match result {
        CommandLineResult::Exited => true,
        CommandLineResult::Continued => false,
        _ => mode == CommandFileErrorMode::FailFast,
    }
}

/// The report after one more line.
pub open spec fn recorded_report(
    r: CommandFileReport,
    mode: CommandFileErrorMode,
    result: CommandLineResult,
) -> CommandFileReport {
    let ok = result == CommandLineResult::Continued || result == CommandLineResult::Exited;
    CommandFileReport {
        total: r.total,
        executed: (r.executed + 1) as usize,
        succeeded: if ok { (r.succeeded + 1) as usize } else { r.succeeded },
        failed: if ok { r.failed } else { (r.failed + 1) as usize },
        halted_early: r.halted_early || stops(mode, result),
    }
}

/// The counts always add up: every executed line either succeeded or failed.
pub open spec fn report_consistent(r: CommandFileReport) -> bool {
    r.executed == r.succeeded + r.failed && r.executed <= r.total
}

/// Counts one line and says whether the file stops here.
pub fn record_command_line(
    report: &mut CommandFileReport,
    mode: CommandFileErrorMode,
    result: CommandLineResult,
) -> (stop: bool)
    requires
        report_consistent(*old(report)),
        old(report).executed < old(report).total,
    ensures
        *final(report) == recorded_report(*old(report), mode, result),
        stop == stops(mode, result),
        report_consistent(*final(report)),
{
    report.executed = report.executed + 1;
    match result {
        CommandLineResult::Continued => {
            report.succeeded = report.succeeded + 1;
            false
        },
        CommandLineResult::Exited => {
            report.succeeded = report.succeeded + 1;
            report.halted_early = true;
            true
        },
        _ => {
            report.failed = report.failed + 1;
            if mode == CommandFileErrorMode::FailFast {
                report.halted_early = true;
                true
            } else {
                false
            }
        },
    }
}

/// A fail-fast run with a failure is an error; anything else succeeds.
pub fn command_file_failed(report: &CommandFileReport, mode: CommandFileErrorMode) -> (b: bool)
    ensures
        b == (mode == CommandFileErrorMode::FailFast && report.failed > 0),
{
    mode == CommandFileErrorMode::FailFast && report.failed > 0
}

/// The report after the given line results, in order.
pub open spec fn report_of(total: usize, mode: CommandFileErrorMode, results: Seq<CommandLineResult>) -> CommandFileReport
    decreases results.len(),
{
    if results.len() == 0 {
        CommandFileReport { total, executed: 0, succeeded: 0, failed: 0, halted_early: false }
    } else {
        recorded_report(report_of(total, mode, results.drop_last()), mode, results.last())
    }
}

/// Runs a command file: each line that starts with `/` is handed to
/// `execute(i)`, any other line counts as a failure, and the file stops after
/// an exit, or after a failure in fail-fast mode. Returns the report and the
/// result of every line that was reached.
pub fn run_command_file<E: Fn(usize) -> CommandLineResult>(
    lines: &Vec<String>,
    mode: CommandFileErrorMode,
    execute: &E,
) -> (r: (CommandFileReport, Vec<CommandLineResult>))
    requires
        forall|i: usize| call_requires(*execute, (i,)),
    ensures
        r.0 == report_of(lines.len(), mode, r.1@),
        report_consistent(r.0),
        r.0.executed == r.1@.len(),
        r.1@.len() <= lines.len(),
        forall|i: int|
            0 <= i < r.1@.len() ==> if crate::text::starts_with(lines@[i]@, "/"@) {
                call_ensures(*execute, (i as usize,), #[trigger] r.1@[i])
            } else {
                r.1@[i] == CommandLineResult::NotACommand
            },
        forall|i: int| 0 <= i < r.1@.len() - 1 ==> !stops(mode, #[trigger] r.1@[i]),
        r.0.halted_early == (r.1@.len() > 0 && stops(mode, r.1@[r.1@.len() - 1])),
        !r.0.halted_early ==> r.1@.len() == lines.len(),
{
    let mut report = new_command_file_report(lines.len());
    let mut results: Vec<CommandLineResult> = Vec::new();
    let mut i: usize = 0;
    while i < lines.len()
        invariant_except_break
            !report.halted_early,
            forall|k: int| 0 <= k < i ==> !stops(mode, #[trigger] results@[k]),
        invariant
            forall|k: usize| call_requires(*execute, (k,)),
            i <= lines.len(),
            results@.len() == i,
            report == report_of(lines.len(), mode, results@),
            report_consistent(report),
            report.executed == i,
            report.total == lines.len(),
            forall|k: int|
                0 <= k < i ==> if crate::text::starts_with(lines@[k]@, "/"@) {
                    call_ensures(*execute, (k as usize,), #[trigger] results@[k])
                } else {
                    results@[k] == CommandLineResult::NotACommand
                },
            forall|k: int| 0 <= k < i - 1 ==> !stops(mode, #[trigger] results@[k]),
            report.halted_early == (i > 0 && stops(mode, results@[i - 1])),
        ensures
            results@.len() <= lines.len(),
            report == report_of(lines.len(), mode, results@),
            report_consistent(report),
            report.executed == results@.len(),
            forall|k: int|
                0 <= k < results@.len() ==> if crate::text::starts_with(lines@[k]@, "/"@) {
                    call_ensures(*execute, (k as usize,), #[trigger] results@[k])
                } else {
                    results@[k] == CommandLineResult::NotACommand
                },
            forall|k: int| 0 <= k < results@.len() - 1 ==> !stops(mode, #[trigger] results@[k]),
            report.halted_early == (results@.len() > 0 && stops(mode, results@[results@.len() - 1])),
            !report.halted_early ==> results@.len() == lines.len(),
        decreases lines.len() - i,
    {
        let result = if is_command_line(lines[i].as_str()) {
            execute(i)
        } else {
            CommandLineResult::NotACommand
        };
        let ghost before = results@;
        let stop = record_command_line(&mut report, mode, result);
        results.push(result);
        assert(results@.drop_last() =~= before);
        i += 1;
        if stop {
            break;
        }
    }
    (report, results)
}

} // verus!
