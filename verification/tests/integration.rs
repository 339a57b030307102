use atento_core::{
    AtentoError, Chain, CommandExecutor, DataType, ExecutionResult, Input, Interpreter,
    OrderedMap, Output, Step, Value,
};

/// Stands in for a shell: prints what `echo` is given, waits for `sleep`,
/// ends with the code of `exit`, and stops at the timeout.
struct FakeShell;

fn unquote(text: &str) -> String {
    let t = text.trim();
    let quoted = t.len() >= 2
        && ((t.starts_with('\'') && t.ends_with('\'')) || (t.starts_with('"') && t.ends_with('"')));
    if quoted {
        t[1..t.len() - 1].to_string()
    } else {
        t.to_string()
    }
}

impl CommandExecutor for FakeShell {
    fn execute(
        &self,
        script: &str,
        _interpreter: &Interpreter,
        timeout: u64,
    ) -> Result<ExecutionResult, AtentoError> {
        let start = std::time::Instant::now();
        let mut stdout = String::new();
        let mut exit_code = 0;
        let commands = script
            .split('\n')
            .flat_map(|line| line.split("&&"))
            .flat_map(|part| part.split(';'));
        for command in commands {
            let command = command.trim();
            if let Some(rest) = command.strip_prefix("echo ") {
                stdout.push_str(&unquote(rest));
                stdout.push('\n');
            } else if command == "echo" {
                stdout.push('\n');
            } else if let Some(rest) = command.strip_prefix("sleep ") {
                let millis = (rest.trim().parse::<f64>().unwrap_or(0.0) * 1000.0) as u128;
                let limit = if timeout > 0 { u128::from(timeout) * 1000 } else { u128::MAX };
                while start.elapsed().as_millis() < millis.min(limit) {
                    std::hint::spin_loop();
                }
                if millis >= limit {
                    return Err(AtentoError::Timeout {
                        context: "Step execution timed out".to_string(),
                        timeout_secs: timeout,
                    });
                }
            } else if let Some(rest) = command.strip_prefix("exit ") {
                exit_code = rest.trim().parse::<i32>().unwrap_or(1);
                break;
            }
        }
        Ok(ExecutionResult {
            stdout,
            stderr: String::new(),
            exit_code,
            duration_ms: u64::try_from(start.elapsed().as_millis()).unwrap_or(u64::MAX),
        })
    }
}

fn step(script: &str) -> Step {
    Step {
        name: None,
        timeout: 60,
        inputs: OrderedMap::new(),
        interpreter: "bash".to_string(),
        script: script.to_string(),
        outputs: OrderedMap::new(),
    }
}

fn with_output(mut step: Step, name: &str, pattern: &str, type_: DataType) -> Step {
    step.outputs.insert(
        name.to_string(),
        Output {
            pattern: pattern.to_string(),
            type_,
        },
    );
    step
}

fn with_ref(mut step: Step, name: &str, reference: &str) -> Step {
    step.inputs.insert(
        name.to_string(),
        Input::Ref {
            ref_: reference.to_string(),
        },
    );
    step
}

fn document(name: Option<&str>, timeout: u64) -> Chain {
    Chain::from_parts(
        name.map(str::to_string),
        timeout,
        &OrderedMap::new(),
        OrderedMap::new(),
        OrderedMap::new(),
        OrderedMap::new(),
    )
}

/// Validates the chain, runs it where it is sound, and reports as the
/// caller of a run is told.
fn run(chain: &Chain) -> Result<(), AtentoError> {
    chain.validate()?;
    chain.run_with_executor(&FakeShell).verdict()
}

// Chain validation tests

#[test]
fn test_run_chain_forward_reference_error() {
    let mut chain = document(Some("forward_ref_chain"), 300);
    chain.steps.insert(
        "step1".to_string(),
        with_ref(step("echo {{ inputs.future }}\n"), "future", "steps.step2.outputs.value"),
    );
    chain.steps.insert(
        "step2".to_string(),
        with_output(step("echo 'value: 42'\n"), "value", r"value: (\d+)", DataType::Int),
    );

    let result = run(&chain);
    assert!(result.is_err());
    match result {
        Err(AtentoError::Validation(msg)) => {
            assert!(msg.contains("future step output"));
        }
        Err(e) => {
            panic!("Expected Validation error about forward reference, got: {e:?}");
        }
        Ok(()) => {
            panic!("Expected error but got success");
        }
    }
}

#[test]
fn test_run_chain_empty_output_pattern() {
    let mut chain = document(Some("empty_pattern_chain"), 300);
    chain.steps.insert(
        "step1".to_string(),
        with_output(step("echo test"), "value", "", DataType::String),
    );

    let result = run(&chain);
    assert!(result.is_err());
    if let Err(AtentoError::Validation(_)) = result {
        // Expected
    } else {
        panic!("Expected Validation error");
    }
}

#[test]
fn test_run_chain_invalid_regex_pattern() {
    let mut chain = document(Some("invalid_regex_chain"), 300);
    chain.steps.insert(
        "step1".to_string(),
        with_output(step("echo test"), "value", "([invalid", DataType::String),
    );

    let result = run(&chain);
    assert!(result.is_err());
    if let Err(AtentoError::Validation(msg)) = result {
        assert!(msg.contains("invalid regex pattern"));
    } else {
        panic!("Expected Validation error about regex");
    }
}

#[test]
fn test_run_chain_unused_input() {
    let mut chain = document(Some("unused_input_chain"), 300);
    let mut step1 = step("echo hello");
    step1.inputs.insert(
        "unused".to_string(),
        Input::Inline {
            type_: DataType::String,
            value: Value::String("never used".to_string()),
        },
    );
    chain.steps.insert("step1".to_string(), step1);

    let result = run(&chain);
    assert!(result.is_err());
    if let Err(AtentoError::Validation(msg)) = result {
        assert!(msg.contains("never used"));
    } else {
        panic!("Expected Validation error about unused input");
    }
}

#[test]
fn test_run_chain_undeclared_input() {
    let mut chain = document(Some("undeclared_input_chain"), 300);
    chain.steps.insert("step1".to_string(), step("echo {{ inputs.undefined }}"));

    let result = run(&chain);
    assert!(result.is_err());
    if let Err(AtentoError::Validation(msg)) = result {
        assert!(msg.contains("not declared"));
    } else {
        panic!("Expected Validation error about undeclared input");
    }
}

#[test]
fn test_run_chain_with_validation_error() {
    let mut chain = document(Some("invalid_chain"), 300);
    chain.steps.insert("step1".to_string(), step("echo {{ inputs.undefined }}"));

    let result = run(&chain);
    assert!(result.is_err());
    if let Err(AtentoError::Validation(_)) = result {
        // Expected
    } else {
        panic!("Expected Validation error");
    }
}

// Basic chain execution tests (minimal setup)

#[test]
fn test_run_empty_chain() {
    let chain = document(Some("empty"), 300);

    let result = run(&chain);
    assert!(result.is_ok());
}

#[test]
fn test_run_chain_with_name() {
    let mut chain = document(Some("named_chain"), 300);
    chain.steps.insert("step1".to_string(), step("echo test"));

    let result = run(&chain);
    assert!(result.is_ok());
}

#[test]
fn test_run_chain_without_name() {
    let mut chain = document(None, 300);
    chain.steps.insert("step1".to_string(), step("echo test"));

    let result = run(&chain);
    assert!(result.is_ok());
}

#[test]
fn run_that_ends_with_errors_is_reported_as_such() {
    let mut chain = document(Some("failing"), 300);
    chain.steps.insert(
        "step1".to_string(),
        with_output(step("echo nothing"), "value", r"value: (\d+)", DataType::Int),
    );
    match run(&chain) {
        Err(AtentoError::Execution(msg)) => assert_eq!(msg, "Chain completed with errors"),
        other => panic!("expected an execution error, got {other:?}"),
    }
}

// The same chains with the batch interpreter

fn batch_step(script: &str) -> Step {
    let mut step = step(script);
    step.interpreter = "batch".to_string();
    step
}

#[test]
fn test_run_chain_with_name_windows() {
    let mut chain = document(Some("named_chain"), 300);
    chain.steps.insert("step1".to_string(), batch_step("echo test"));

    let result = run(&chain);
    assert!(result.is_ok());
}

#[test]
fn test_run_chain_without_name_windows() {
    let mut chain = document(None, 300);
    chain.steps.insert("step1".to_string(), batch_step("echo test"));

    let result = run(&chain);
    assert!(result.is_ok());
}

#[test]
fn test_run_simple_chain_from_file() {
    let mut chain = document(Some("Simple Test Chain"), 300);
    chain.steps.insert(
        "test_step".to_string(),
        step("echo \"Hello from integration test\""),
    );

    let result = run(&chain);
    assert!(result.is_ok());
}

#[test]
fn test_run_simple_chain_from_file_windows() {
    let mut chain = document(Some("Simple Test Chain"), 300);
    chain.steps.insert(
        "test_step".to_string(),
        batch_step("echo Hello from integration test"),
    );

    let result = run(&chain);
    assert!(result.is_ok());
}

#[test]
fn test_run_chain_undeclared_input_windows() {
    let mut chain = document(Some("undeclared_input_chain"), 300);
    chain.steps.insert("step1".to_string(), batch_step("echo {{ inputs.undefined }}"));

    let result = run(&chain);
    assert!(result.is_err());
    if let Err(AtentoError::Validation(msg)) = result {
        assert!(msg.contains("not declared"));
    } else {
        panic!("Expected Validation error about undeclared input");
    }
}
