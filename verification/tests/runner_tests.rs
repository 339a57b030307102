use atento_core::runner::{
    filter_stderr, hard_timeout, into_execution_result, preflight, process_result, timed_out,
    DEFAULT_RUNNER_TIMEOUT_SECS,
};
use atento_core::{AtentoError, Interpreter, RunnerResult};

fn bash_interpreter() -> Interpreter {
    Interpreter {
        command: "bash".to_string(),
        args: vec![],
        extension: ".sh".to_string(),
    }
}

fn invalid_interpreter() -> Interpreter {
    Interpreter {
        command: String::new(),
        args: vec![],
        extension: ".sh".to_string(),
    }
}

#[test]
fn test_runner_module_exists() {
    // The runner's decisions are reached through the library; starting a
    // process is left to the caller.
}

#[test]
fn test_run_with_timeout_empty_script() {
    let result = preflight("", &bash_interpreter());
    assert!(result.is_err());
    if let Err(AtentoError::Runner(msg)) = result {
        assert!(msg.contains("Script cannot be empty"));
    } else {
        panic!("Expected Runner error about empty script");
    }
}

#[test]
fn test_run_with_timeout_invalid_interpreter() {
    let result = preflight("echo test", &invalid_interpreter());
    assert!(result.is_err());
    if let Err(AtentoError::Runner(msg)) = result {
        assert!(msg.contains("Interpreter has invalid configuration"));
    } else {
        panic!("Expected Runner error about invalid interpreter");
    }
}

#[test]
fn test_run_with_timeout_zero_timeout_uses_default() {
    assert_eq!(hard_timeout(0), DEFAULT_RUNNER_TIMEOUT_SECS);
    assert_eq!(hard_timeout(0), 86400);
}

#[test]
fn test_run_with_timeout_valid_parameters() {
    assert!(preflight("echo hello", &bash_interpreter()).is_ok());
    assert_eq!(hard_timeout(30), 30);
}

#[test]
fn test_run_empty_stdout() {
    let report = process_result(3, Some(0), "", "");
    assert!(report.stdout.is_none());
    assert!(report.stderr.is_none());
    assert_eq!(report.exit_code, 0);
    assert_eq!(report.duration_ms, 3);
}

#[test]
fn empty_script_is_refused_before_the_interpreter_is_looked_at() {
    match preflight("", &invalid_interpreter()) {
        Err(AtentoError::Runner(msg)) => assert_eq!(msg, "Script cannot be empty"),
        other => panic!("expected a runner error, got {other:?}"),
    }
}

#[test]
fn interpreter_without_extension_is_refused() {
    let interpreter = Interpreter {
        command: "bash".to_string(),
        args: vec![],
        extension: String::new(),
    };
    match preflight("echo", &interpreter) {
        Err(AtentoError::Runner(msg)) => assert_eq!(msg, "Interpreter has invalid configuration"),
        other => panic!("expected a runner error, got {other:?}"),
    }
}

#[test]
fn hard_timeout_keeps_a_timeout_that_is_set() {
    assert_eq!(hard_timeout(1), 1);
    assert_eq!(hard_timeout(u64::MAX), u64::MAX);
}

#[test]
fn timed_out_names_the_timeout() {
    match timed_out(5) {
        AtentoError::Timeout { context, timeout_secs } => {
            assert_eq!(context, "Step execution timed out");
            assert_eq!(timeout_secs, 5);
        }
        other => panic!("expected a timeout, got {other:?}"),
    }
    assert_eq!(timed_out(5).to_string(), "Step execution timed out timeout after 5s");
}

#[test]
fn noise_lines_leave_the_standard_error() {
    let raw = "first\n[Perftrack - Begin] x\nsecond\nsome NamedPipeIPC thing\nthird";
    assert_eq!(filter_stderr(raw), "first\nsecond\nthird");
    assert_eq!(filter_stderr("[Perftrack"), "");
    assert_eq!(filter_stderr(""), "");
    assert_eq!(filter_stderr("only line"), "only line");
    assert_eq!(filter_stderr("a\r\nb\n"), "a\nb");
    assert_eq!(filter_stderr("\nNamedPipeIPC\nb"), "\nb");
}

#[test]
fn process_result_trims_and_drops_empty_texts() {
    let report = process_result(12, Some(3), "  out \n", "\n[Perftrack] noise\n  err  \n");
    assert_eq!(report.exit_code, 3);
    assert_eq!(report.duration_ms, 12);
    assert_eq!(report.stdout.as_deref(), Some("out"));
    assert_eq!(report.stderr.as_deref(), Some("err"));

    let blank = process_result(0, None, " \t\n", "NamedPipeIPC\n");
    assert_eq!(blank.exit_code, -1);
    assert!(blank.stdout.is_none());
    assert!(blank.stderr.is_none());
}

#[test]
fn execution_result_fills_in_what_is_absent() {
    let report = RunnerResult {
        exit_code: 2,
        duration_ms: 40,
        stdout: None,
        stderr: Some("warn".to_string()),
    };
    let result = into_execution_result(report);
    assert_eq!(result.stdout, "");
    assert_eq!(result.stderr, "warn");
    assert_eq!(result.exit_code, 2);
    assert_eq!(result.duration_ms, 40);

    let long = RunnerResult {
        exit_code: 0,
        duration_ms: u128::MAX,
        stdout: Some("x".to_string()),
        stderr: None,
    };
    let result = into_execution_result(long);
    assert_eq!(result.duration_ms, u64::MAX);
    assert_eq!(result.stdout, "x");
    assert_eq!(result.stderr, "");
}
