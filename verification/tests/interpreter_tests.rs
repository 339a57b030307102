use atento_core::interpreter::merged_interpreters;
use atento_core::{default_interpreters, Interpreter, OrderedMap};

#[test]
fn test_interpreter_extension_method() {
    let interp = Interpreter {
        command: "bash".to_string(),
        args: vec![],
        extension: ".sh".to_string(),
    };
    assert_eq!(interp.extension(), ".sh");
}

#[test]
fn test_interpreter_is_valid_true() {
    let interp = Interpreter {
        command: "bash".to_string(),
        args: vec![],
        extension: ".sh".to_string(),
    };
    assert!(interp.is_valid());
}

#[test]
fn test_interpreter_is_valid_empty_command() {
    let interp = Interpreter {
        command: String::new(),
        args: vec![],
        extension: ".sh".to_string(),
    };
    assert!(!interp.is_valid());
}

#[test]
fn test_interpreter_is_valid_empty_extension() {
    let interp = Interpreter {
        command: "bash".to_string(),
        args: vec![],
        extension: String::new(),
    };
    assert!(!interp.is_valid());
}

#[test]
fn test_default_interpreters_returns_vec() {
    let interpreters = default_interpreters();
    assert_eq!(interpreters.len(), 6);

    // Verify keys
    let keys: Vec<&String> = interpreters.iter().map(|(k, _)| k).collect();
    assert!(keys.contains(&&"bash".to_string()));
    assert!(keys.contains(&&"batch".to_string()));
    assert!(keys.contains(&&"powershell".to_string()));
    assert!(keys.contains(&&"pwsh".to_string()));
    assert!(keys.contains(&&"python".to_string()));
    assert!(keys.contains(&&"python3".to_string()));
}

#[test]
fn test_default_interpreters_bash_config() {
    let interpreters = default_interpreters();
    let bash = interpreters
        .iter()
        .find(|(k, _)| k == "bash")
        .map(|(_, v)| v);
    if let Some(bash) = bash {
        assert_eq!(bash.command, "bash");
        assert_eq!(bash.extension, ".sh");
        assert!(bash.args.is_empty());
    } else {
        panic!("bash interpreter should exist in defaults");
    }
}

#[test]
fn test_default_interpreters_batch_config() {
    let interpreters = default_interpreters();
    let batch = interpreters
        .iter()
        .find(|(k, _)| k == "batch")
        .map(|(_, v)| v);
    if let Some(batch) = batch {
        assert_eq!(batch.command, "cmd");
        assert_eq!(batch.extension, ".bat");
        assert_eq!(batch.args, vec!["/c"]);
    } else {
        panic!("batch interpreter should exist in defaults");
    }
}

#[test]
fn test_default_interpreters_all_valid() {
    let interpreters = default_interpreters();
    for (key, interp) in &interpreters {
        assert!(interp.is_valid(), "Interpreter '{key}' should be valid");
    }
}

#[test]
fn default_interpreters_in_their_order() {
    let interpreters = default_interpreters();
    let listed: Vec<(String, String, Vec<String>, String)> = interpreters
        .iter()
        .map(|(k, i)| (k.clone(), i.command.clone(), i.args.clone(), i.extension.clone()))
        .collect();
    let powershell: Vec<String> = vec![
        "-NoLogo",
        "-NoProfile",
        "-NonInteractive",
        "-ExecutionPolicy",
        "Bypass",
        "-File",
    ]
    .into_iter()
    .map(String::from)
    .collect();
    let expected = vec![
        ("bash".to_string(), "bash".to_string(), vec![], ".sh".to_string()),
        ("batch".to_string(), "cmd".to_string(), vec!["/c".to_string()], ".bat".to_string()),
        ("powershell".to_string(), "powershell".to_string(), powershell.clone(), ".ps1".to_string()),
        ("pwsh".to_string(), "pwsh".to_string(), powershell, ".ps1".to_string()),
        ("python".to_string(), "python3".to_string(), vec![], ".py".to_string()),
        ("python3".to_string(), "python3".to_string(), vec![], ".py".to_string()),
    ];
    assert_eq!(listed, expected);
}

#[test]
fn interpreter_clone_keeps_every_field() {
    let interp = Interpreter {
        command: "cmd".to_string(),
        args: vec!["/c".to_string(), "/q".to_string()],
        extension: ".bat".to_string(),
    };
    let cloned = interp.clone();
    assert_eq!(cloned.command, "cmd");
    assert_eq!(cloned.args, vec!["/c".to_string(), "/q".to_string()]);
    assert_eq!(cloned.extension, ".bat");
}

#[test]
fn declared_interpreter_replaces_the_built_in_one_whole() {
    let mut overrides: OrderedMap<Interpreter> = OrderedMap::new();
    overrides.insert(
        "bash".to_string(),
        Interpreter {
            command: "/opt/bin/bash".to_string(),
            args: vec!["-e".to_string()],
            extension: ".bash".to_string(),
        },
    );
    overrides.insert(
        "node".to_string(),
        Interpreter {
            command: "node".to_string(),
            args: vec![],
            extension: ".js".to_string(),
        },
    );
    let merged = merged_interpreters(&overrides);
    assert_eq!(merged.len(), 7);
    let bash = merged.get("bash").unwrap();
    assert_eq!(bash.command, "/opt/bin/bash");
    assert_eq!(bash.args, vec!["-e".to_string()]);
    assert_eq!(bash.extension, ".bash");
    assert_eq!(merged.get_index_of("bash"), Some(0));
    assert_eq!(merged.get_index_of("node"), Some(6));
    assert_eq!(merged.get("node").unwrap().extension, ".js");
    let batch = merged.get("batch").unwrap();
    assert_eq!(batch.command, "cmd");
    assert_eq!(batch.args, vec!["/c".to_string()]);
    assert!(merged.get("ruby").is_none());
}

#[test]
fn registry_without_overrides_is_the_built_in_one() {
    let merged = merged_interpreters(&OrderedMap::new());
    assert_eq!(merged.len(), 6);
    let keys: Vec<String> = (0..merged.len()).map(|i| merged.key_at(i).clone()).collect();
    assert_eq!(keys, vec!["bash", "batch", "powershell", "pwsh", "python", "python3"]);
}
