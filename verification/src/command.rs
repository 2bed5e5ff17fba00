//! Running other programs: what may be run, what is logged of it, and what its output comes to.
use vstd::prelude::*;

use crate::ops_log;
use crate::ops_log::timestamp;
use crate::paths;
use crate::paths::file_name;
use crate::pieces;
use crate::pieces::{decimal_of, joined, signed_decimal_of};
use crate::text;
use crate::text::{cat3, cat5, has_suffix, is_empty, same};

verus! {

/// A program to be run. The time that it may take is in seconds.
#[derive(Debug, Clone)]
pub struct CommandSpec {
    pub program: String,
    pub args: Vec<String>,
    pub cwd: Option<String>,
    pub timeout: u64,
    pub log_path: String,
}

/// The model of a [`CommandSpec`].
#[verifier::ext_equal]
pub struct CommandModel {
    pub program: Seq<char>,
    pub args: Seq<Seq<char>>,
    pub cwd: Option<Seq<char>>,
    pub timeout: u64,
    pub log_path: Seq<char>,
}

impl View for CommandSpec {
    type V = CommandModel;

    open spec fn view(&self) -> CommandModel {
        CommandModel {
            program: self.program@,
            args: text::texts(self.args@),
            cwd: text::opt_text(self.cwd),
            timeout: self.timeout,
            log_path: self.log_path@,
        }
    }
}

/// What a program has come to.
#[derive(Debug, Clone)]
pub struct CommandResult {
    pub stdout: String,
    pub stderr: String,
    pub returncode: i32,
    pub log_path: String,
}

/// The programs that may be run.
pub open spec fn is_allowed(name: Seq<char>) -> bool {
    name == "takopack"@ || name == "osc"@ || name == "git"@
}

/// Only the known programs may be run, wherever they are.
pub fn ensure_allowed_command(program: &str) -> (r: Result<(), String>)
    ensures
        ({
            let allowed = match paths::name_of(program@) {
                Some(name) => is_allowed(name),
                None => false,
            };
            match r {
                Ok(_) => allowed,
                Err(message) => !allowed && message@ == "uncontrolled command '"@ + program@
                    + "' (allowed: [\"takopack\", \"osc\", \"git\"])"@,
            }
        }),
{
    if let Some(name) = file_name(program) {
        if same(name.as_str(), "takopack") || same(name.as_str(), "osc") || same(
            name.as_str(),
            "git",
        ) {
            return Ok(());
        }
    }
    Err(
        cat3(
            "uncontrolled command '",
            program,
            "' (allowed: [\"takopack\", \"osc\", \"git\"])",
        ),
    )
}

/// What is done about a program that is still running.
#[derive(Debug, Clone, Copy, PartialEq, Eq, Structural)]
pub enum Tick {
    /// Its time is up.
    Kill,
    /// It is logged that it is running.
    Log,
    Wait,
}

/// What is done about a program that has been running for `elapsed_ms` and may run for `timeout`
/// seconds, when it was last logged `since_log_ms` ago: it is logged every half minute.
pub fn on_tick(elapsed_ms: u64, timeout: u64, since_log_ms: u64) -> (r: Tick)
    ensures
        r == if elapsed_ms > timeout * 1000 {
            Tick::Kill
        } else if since_log_ms >= 30 * 1000 {
            Tick::Log
        } else {
            Tick::Wait
        },
{
    if elapsed_ms as u128 > timeout as u128 * 1000 {
        Tick::Kill
    } else if since_log_ms >= 30_000 {
        Tick::Log
    } else {
        Tick::Wait
    }
}

/// A command as it is shown.
pub open spec fn shown_command(spec: CommandModel) -> Seq<char> {
    if spec.args.len() == 0 {
        spec.program
    } else {
        spec.program + " "@ + pieces::join(spec.args, " "@)
    }
}

pub fn command_line(spec: &CommandSpec) -> (r: String)
    ensures
        r@ == shown_command(spec@),
{
    assert(spec@.args.len() == spec.args@.len());
    if spec.args.len() == 0 {
        spec.program.clone()
    } else {
        cat3(spec.program.as_str(), " ", joined(&spec.args, " ").as_str())
    }
}

/// Where a command is run.
pub open spec fn shown_dir(spec: CommandModel) -> Seq<char> {
    match spec.cwd {
        Some(dir) => dir,
        None => "."@,
    }
}

pub fn working_dir(spec: &CommandSpec) -> (r: String)
    ensures
        r@ == shown_dir(spec@),
{
    match &spec.cwd {
        Some(dir) => dir.clone(),
        None => ".".to_owned(),
    }
}

/// What the log of a command starts with.
pub open spec fn header_text(spec: CommandModel, started_at: Option<(u64, u32)>) -> Seq<char> {
    "COMMAND: "@ + spec.program + " "@ + pieces::join(spec.args, " "@) + "\nCWD: "@ + shown_dir(
        spec,
    ) + "\nSTARTED_AT: "@ + ops_log::time_text(started_at) + "\nTIMEOUT: "@ + pieces::decimal(
        spec.timeout as nat,
    ) + "s\n"@
}

pub fn log_header(spec: &CommandSpec, started_at: Option<(u64, u32)>) -> (r: String)
    ensures
        r@ == header_text(spec@, started_at),
{
    let mut s = cat5(
        "COMMAND: ",
        spec.program.as_str(),
        " ",
        joined(&spec.args, " ").as_str(),
        "\nCWD: ",
    );
    s.append(working_dir(spec).as_str());
    s.append("\nSTARTED_AT: ");
    s.append(timestamp(started_at).as_str());
    s.append("\nTIMEOUT: ");
    s.append(decimal_of(spec.timeout).as_str());
    s.append("s\n");
    s
}

/// What the log of a command ends with. `elapsed` is the notation of the seconds that it took.
pub open spec fn result_text(
    stdout: Seq<char>,
    stderr: Seq<char>,
    returncode: i32,
    finished_at: Option<(u64, u32)>,
    elapsed: Seq<char>,
) -> Seq<char> {
    "STDOUT:\n"@ + stdout + "\n\nSTDERR:\n"@ + stderr + "\n\nRETURNCODE: "@
        + pieces::signed_decimal(returncode as int) + "\nFINISHED_AT: "@ + ops_log::time_text(
        finished_at,
    ) + "\nELAPSED: "@ + elapsed + "s"@
}

pub fn log_result(result: &CommandResult, finished_at: Option<(u64, u32)>, elapsed: &str) -> (r:
    String)
    ensures
        r@ == result_text(
            result.stdout@,
            result.stderr@,
            result.returncode,
            finished_at,
            elapsed@,
        ),
{
    let mut s = cat5(
        "STDOUT:\n",
        result.stdout.as_str(),
        "\n\nSTDERR:\n",
        result.stderr.as_str(),
        "\n\nRETURNCODE: ",
    );
    s.append(signed_decimal_of(result.returncode).as_str());
    s.append("\nFINISHED_AT: ");
    s.append(timestamp(finished_at).as_str());
    s.append("\nELAPSED: ");
    s.append(elapsed);
    s.append("s");
    s
}

/// A line that a program has put out.
#[derive(Debug, Clone)]
pub struct StreamLine {
    pub is_stderr: bool,
    pub line: String,
}

/// What a program has put out so far.
#[derive(Debug, Clone)]
pub struct CommandOutput {
    pub stdout: String,
    pub stderr: String,
}

/// The model of a [`CommandOutput`].
#[verifier::ext_equal]
pub struct OutputModel {
    pub stdout: Seq<char>,
    pub stderr: Seq<char>,
}

impl View for CommandOutput {
    type V = OutputModel;

    open spec fn view(&self) -> OutputModel {
        OutputModel {
            stdout: self.stdout@,
            stderr: self.stderr@,
        }
    }
}

/// The output with one more line.
pub open spec fn with_line(output: OutputModel, is_stderr: bool, line: Seq<char>) -> OutputModel {
    if is_stderr {
        OutputModel { stderr: output.stderr + line + "\n"@, ..output }
    } else {
        OutputModel { stdout: output.stdout + line + "\n"@, ..output }
    }
}

/// The error output of a program that took too long.
pub open spec fn timeout_text(stderr: Seq<char>, timeout: u64) -> Seq<char> {
    (if stderr.len() > 0 && !text::ends_with(stderr, "\n"@) {
        stderr + "\n"@
    } else {
        stderr
    }) + "TIMEOUT after "@ + pieces::decimal(timeout as nat) + "s"@
}

impl CommandOutput {
    pub fn new() -> (r: Self)
        ensures
            r@ == (OutputModel { stdout: seq![], stderr: seq![] }),
    {
        CommandOutput { stdout: String::new(), stderr: String::new() }
    }

    /// A line has been put out.
    pub fn on_line(&mut self, item: StreamLine)
        ensures
            final(self)@ == with_line(old(self)@, item.is_stderr, item.line@),
    {
        if item.is_stderr {
            self.stderr.append(item.line.as_str());
            self.stderr.append("\n");
        } else {
            self.stdout.append(item.line.as_str());
            self.stdout.append("\n");
        }
    }

    /// The program has ended with `code`, where it had one, or has been ended after `timeout`
    /// seconds.
    pub fn finish(self, timed_out: bool, timeout: u64, code: Option<i32>, log_path: String) -> (r:
        CommandResult)
        ensures
            r.stdout@ == self@.stdout,
            r.stderr@ == (if timed_out {
                timeout_text(self@.stderr, timeout)
            } else {
                self@.stderr
            }),
            r.returncode == (if timed_out || code is None {
                -1i32
            } else {
                code->0
            }),
            r.log_path@ == log_path@,
    {
        let mut stderr = self.stderr;
        if timed_out {
            if !is_empty(stderr.as_str()) && !has_suffix(stderr.as_str(), "\n") {
                stderr.append("\n");
            }
            stderr.append("TIMEOUT after ");
            stderr.append(decimal_of(timeout).as_str());
            stderr.append("s");
        }
        let returncode: i32 = if timed_out {
            -1
        } else {
            match code {
                Some(code) => code,
                None => -1,
            }
        };
        CommandResult { stdout: self.stdout, stderr, returncode, log_path }
    }
}

/// Lines on one stream do not disturb the other.
pub proof fn law_streams_are_kept_apart(output: OutputModel, line: Seq<char>)
    ensures
        with_line(output, true, line).stdout == output.stdout,
        with_line(output, false, line).stderr == output.stderr,
{
}

/// A line that a program has put out, without its end.
pub open spec fn without_end(s: Seq<char>) -> Seq<char>
    decreases s.len(),
{
    if s.len() > 0 && (s.last() == '\n' || s.last() == '\r') {
        without_end(s.drop_last())
    } else {
        s
    }
}

pub fn trimmed_line_end(line: &str) -> (r: String)
    ensures
        r@ == without_end(line@),
{
    let v = text::chars_of(line);
    let mut n: usize = v.len();
    assert(line@.take(n as int) =~= line@);
    while n > 0 && (v[n - 1] == '\n' || v[n - 1] == '\r')
        invariant
            v@ == line@,
            n <= v@.len(),
            without_end(line@) == without_end(line@.take(n as int)),
        decreases n,
    {
        assert(line@.take(n as int).drop_last() =~= line@.take(n - 1));
        n -= 1;
    }
    let r = text::string_of(&v, 0, n);
    assert(r@ =~= line@.take(n as int));
    r
}

} // verus!
