//! What the process runner decides before and after a process runs. Starting
//! the process is the caller's part.

use vstd::prelude::*;
use vstd::string::*;
use crate::errors::{AtentoError, ErrorModel};
use crate::executor::ExecutionResult;
use crate::interpreter::Interpreter;
use crate::step::present;
use crate::text::{contains_text, is_blank, optional_text, trim, trimmed};

verus! {

/// The timeout of a process for which none is set, in seconds: one day.
pub const DEFAULT_RUNNER_TIMEOUT_SECS: u64 = 86400;

/// What a process left behind, as the runner reports it.
#[derive(Debug)]
pub struct RunnerResult {
    pub exit_code: i32,
    pub duration_ms: u128,
    pub stdout: Option<String>,
    pub stderr: Option<String>,
}

/// The lines of a text, as `str::lines` splits it: at each line feed, without
/// the line ending, a last empty line left out.
pub uninterp spec fn text_lines(s: Seq<char>) -> Seq<Seq<char>>;

/// `str::lines`: the lines of the text, in order.
#[verifier::external_body]
fn lines(s: &str) -> (v: Vec<String>)
    ensures
        v@.len() == text_lines(s@).len(),
        forall|i: int| 0 <= i < v@.len() ==> (#[trigger] v@[i])@ == text_lines(s@)[i],
{
    s.lines().map(|line| line.to_string()).collect()
}

/// `str::contains`: whether `needle` occurs in `text`.
#[verifier::external_body]
fn contains(text: &str, needle: &str) -> (r: bool)
    ensures
        r == contains_text(text@, needle@),
{
    text.contains(needle)
}

/// Whether a line of the standard error is noise of the runtime, which the
/// runner leaves out.
pub open spec fn is_noise(line: Seq<char>) -> bool {
    contains_text(line, "[Perftrack"@) || contains_text(line, "NamedPipeIPC"@)
}

/// The first `n` lines without the noise, each but the first after a line
/// feed.
pub open spec fn kept_lines(lines: Seq<Seq<char>>, n: int) -> Seq<char>
    decreases n,
{
    if n <= 0 || n > lines.len() {
        Seq::<char>::empty()
    } else if is_noise(lines[n - 1]) {
        kept_lines(lines, n - 1)
    } else if kept_count(lines, n - 1) == 0 {
        lines[n - 1]
    } else {
        kept_lines(lines, n - 1) + seq!['\n'] + lines[n - 1]
    }
}

/// How many of the first `n` lines are no noise.
pub open spec fn kept_count(lines: Seq<Seq<char>>, n: int) -> nat
    decreases n,
{
    if n <= 0 || n > lines.len() {
        0
    } else if is_noise(lines[n - 1]) {
        kept_count(lines, n - 1)
    } else {
        kept_count(lines, n - 1) + 1
    }
}

/// Where no line is kept, the kept text is empty.
pub proof fn lemma_nothing_kept(lines: Seq<Seq<char>>, n: int)
    requires
        kept_count(lines, n) == 0,
    ensures
        kept_lines(lines, n) == Seq::<char>::empty(),
    decreases n,
{
    if 0 < n <= lines.len() {
        if is_noise(lines[n - 1]) {
            lemma_nothing_kept(lines, n - 1);
        }
    }
}

/// The standard error without the lines that are noise.
pub open spec fn filtered(stderr: Seq<char>) -> Seq<char> {
    kept_lines(text_lines(stderr), text_lines(stderr).len() as int)
}

/// The standard error without the lines that are noise of the runtime.
pub fn filter_stderr(stderr: &str) -> (r: String)
    ensures
        r@ == filtered(stderr@),
{
    let all = lines(stderr);
    let ghost model = text_lines(stderr@);
    let mut out = String::new();
    let mut kept: usize = 0;
    let n = all.len();
    let mut i: usize = 0;
    while i < n
        invariant
            model == text_lines(stderr@),
            n == all@.len(),
            n == model.len(),
            forall|k: int| 0 <= k < n ==> (#[trigger] all@[k])@ == model[k],
            0 <= i <= n,
            kept == kept_count(model, i as int),
            kept <= i,
            out@ == kept_lines(model, i as int),
        decreases n - i,
    {
        let line = all[i].as_str();
        let ghost before = out@;
        assert(line@ == model[i as int]);
        if !contains(line, "[Perftrack") && !contains(line, "NamedPipeIPC") {
            if kept > 0 {
                out.append("\n");
                proof {
                    reveal_strlit("\n");
                    assert("\n"@ =~= seq!['\n']);
                }
            } else {
                assert(kept_lines(model, i as int) =~= Seq::<char>::empty()) by {
                    lemma_nothing_kept(model, i as int);
                }
            }
            out.append(line);
            kept = kept + 1;
            assert(out@ =~= kept_lines(model, i + 1));
        }
        i = i + 1;
    }
    out
}

/// The errors with which the runner refuses a request: an empty script, or an
/// interpreter without a command or without an extension.
pub open spec fn refusal(script: Seq<char>, interpreter: Interpreter) -> Option<ErrorModel> {
    if script.len() == 0 {
        Some(ErrorModel::Runner("Script cannot be empty"@))
    } else if !interpreter.valid() {
        Some(ErrorModel::Runner("Interpreter has invalid configuration"@))
    } else {
        None
    }
}

/// Checks a request before anything is written or started.
pub fn preflight(script: &str, interpreter: &Interpreter) -> (r: Result<(), AtentoError>)
    ensures
        match r {
            Ok(()) => refusal(script@, *interpreter).is_none(),
            Err(e) => refusal(script@, *interpreter) == Some(e@),
        },
{
    if is_blank(script) {
        return Err(AtentoError::Runner(String::from_str("Script cannot be empty")));
    }
    if !interpreter.is_valid() {
        return Err(
            AtentoError::Runner(String::from_str("Interpreter has invalid configuration")),
        );
    }
    Ok(())
}

/// The seconds after which the runner stops a process: the timeout asked
/// for, or one day where none is asked for.
pub fn hard_timeout(timeout_secs: u64) -> (t: u64)
    ensures
        t == if timeout_secs > 0 {
            timeout_secs
        } else {
            DEFAULT_RUNNER_TIMEOUT_SECS
        },
        t > 0,
{
    if timeout_secs > 0 {
        timeout_secs
    } else {
        DEFAULT_RUNNER_TIMEOUT_SECS
    }
}

/// The error for a process that was stopped at its timeout.
pub fn timed_out(timeout_secs: u64) -> (e: AtentoError)
    ensures
        e@ == (ErrorModel::Timeout { context: "Step execution timed out"@, timeout_secs }),
{
    AtentoError::Timeout { context: String::from_str("Step execution timed out"), timeout_secs }
}

/// The report on a process that ended: its exit code, or -1 where it has
/// none; its standard output, trimmed; its standard error without noise,
/// trimmed. An empty text is absent.
pub fn process_result(duration_ms: u128, exit_code: Option<i32>, stdout: &str, stderr: &str) -> (r:
    RunnerResult)
    ensures
        r.duration_ms == duration_ms,
        r.exit_code == match exit_code {
            Some(code) => code,
            None => -1i32,
        },
        optional_text(r.stdout) == present(trimmed(stdout@)),
        optional_text(r.stderr) == present(trimmed(filtered(stderr@))),
{
    let out = trim(stdout);
    let kept = filter_stderr(stderr);
    let err = trim(kept.as_str());
    RunnerResult {
        exit_code: match exit_code {
            Some(code) => code,
            None => -1,
        },
        duration_ms,
        stdout: if is_blank(out.as_str()) {
            None
        } else {
            Some(out)
        },
        stderr: if is_blank(err.as_str()) {
            None
        } else {
            Some(err)
        },
    }
}

/// The text, or the empty text where there is none.
pub open spec fn text_or_empty(s: Option<String>) -> Seq<char> {
    match s {
        Some(s) => s@,
        None => Seq::<char>::empty(),
    }
}

/// What the executor hands on of a runner's report: absent texts are empty,
/// and a duration beyond 64 bits is the largest that fits.
pub fn into_execution_result(result: RunnerResult) -> (r: ExecutionResult)
    ensures
        r.stdout@ == text_or_empty(result.stdout),
        r.stderr@ == text_or_empty(result.stderr),
        r.exit_code == result.exit_code,
        r.duration_ms == if result.duration_ms <= u64::MAX {
            result.duration_ms as u64
        } else {
            u64::MAX
        },
{
    ExecutionResult {
        stdout: match result.stdout {
            Some(s) => s,
            None => String::new(),
        },
        stderr: match result.stderr {
            Some(s) => s,
            None => String::new(),
        },
        exit_code: result.exit_code,
        duration_ms: if result.duration_ms <= 18446744073709551615u128 {
            result.duration_ms as u64
        } else {
            u64::MAX
        },
    }
}

} // verus!
