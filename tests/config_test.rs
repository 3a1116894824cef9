use mx::config::RuntimeConfig;
use mx::{Config, Error, ExecutionMode};

#[test]
fn test_default_config() {
    let config = Config::default();
    assert_eq!(config.heading_level, 2);
    assert!(config.has_runtime("bash"));
    assert!(config.has_runtime("python"));
}

#[test]
fn test_get_runtime() {
    let config = Config::default();
    assert_eq!(config.get_runtime("bash"), Some("bash"));
    assert_eq!(config.get_runtime("python"), Some("python3"));
    assert_eq!(config.get_runtime("unknown"), None);
}

#[test]
fn test_execution_modes() {
    let config = Config::default();
    // Test default execution mode (stdin)
    assert_eq!(config.get_execution_mode("bash"), ExecutionMode::Stdin);
    assert_eq!(config.get_execution_mode("python"), ExecutionMode::Stdin);

    // Test file-based execution mode
    assert_eq!(config.get_execution_mode("go"), ExecutionMode::File);
    assert_eq!(config.get_execution_mode("golang"), ExecutionMode::File);

    // Test arg-based execution mode
    assert_eq!(config.get_execution_mode("mq"), ExecutionMode::Arg);
}

#[test]
fn test_runtime_config_simple() {
    let config = RuntimeConfig::Simple("python3".to_string());
    assert_eq!(config.command(), "python3");
    assert_eq!(config.execution_mode(), ExecutionMode::Stdin);
}

#[test]
fn test_runtime_config_detailed() {
    let config = RuntimeConfig::Detailed {
        command: "go run".to_string(),
        execution_mode: ExecutionMode::File,
    };
    assert_eq!(config.command(), "go run");
    assert_eq!(config.execution_mode(), ExecutionMode::File);
}

#[test]
fn default_runtimes_cover_the_builtin_languages() {
    let config = Config::default();
    assert_eq!(config.runtimes.len(), 13);
    for lang in ["sh", "ruby", "php", "perl", "jq"] {
        assert_eq!(config.get_runtime(lang), Some(lang));
        assert_eq!(config.get_execution_mode(lang), ExecutionMode::Stdin);
    }
    for lang in ["node", "javascript", "js"] {
        assert_eq!(config.get_runtime(lang), Some("node"));
    }
    assert_eq!(config.get_runtime("go"), Some("go run"));
    assert_eq!(config.get_runtime("golang"), Some("go run"));
    assert_eq!(config.get_runtime("mq"), Some("mq"));
    assert!(!config.has_runtime("cobol"));
    assert!(!config.has_runtime(""));
    assert_eq!(mx::config::default_heading_level(), 2);
}

#[test]
fn unmapped_language_reads_as_stdin() {
    let config = Config::default();
    assert_eq!(config.get_execution_mode("cobol"), ExecutionMode::Stdin);
}

#[test]
fn set_runtime_replaces_the_earlier_entry() {
    let mut config = Config::default();
    config.set_runtime(
        "python".to_string(),
        RuntimeConfig::Detailed { command: "python3.11".to_string(), execution_mode: ExecutionMode::File },
    );
    assert_eq!(config.runtimes.len(), 13);
    assert_eq!(config.get_runtime("python"), Some("python3.11"));
    assert_eq!(config.get_execution_mode("python"), ExecutionMode::File);
    config.set_runtime("cobol".to_string(), RuntimeConfig::Simple("cobc".to_string()));
    assert_eq!(config.runtimes.len(), 14);
    assert_eq!(config.get_runtime("cobol"), Some("cobc"));
    assert_eq!(config.get_runtime("bash"), Some("bash"));
}

#[test]
fn later_entry_wins_for_a_repeated_tag() {
    let config = Config {
        runtimes: vec![
            ("py".to_string(), RuntimeConfig::Simple("python2".to_string())),
            ("py".to_string(), RuntimeConfig::Simple("python3".to_string())),
        ],
        heading_level: 2,
    };
    assert_eq!(config.get_runtime("py"), Some("python3"));
}

#[test]
fn runtime_overrides_apply_in_order_with_the_mode() {
    let mut config = Config::default();
    let overrides = vec!["python:python3.11".to_string(), "ts:deno run".to_string()];
    assert!(config.apply_runtime_overrides(&overrides, Some(ExecutionMode::File)).is_ok());
    assert_eq!(config.get_runtime("python"), Some("python3.11"));
    assert_eq!(config.get_execution_mode("python"), ExecutionMode::File);
    assert_eq!(config.get_runtime("ts"), Some("deno run"));
    assert_eq!(config.get_execution_mode("ts"), ExecutionMode::File);
    assert_eq!(config.get_runtime("bash"), Some("bash"));

    let repeated = vec!["sh:dash".to_string(), "sh:a:b".to_string()];
    assert!(config.apply_runtime_overrides(&repeated, None).is_ok());
    assert_eq!(config.get_runtime("sh"), Some("a:b"));
    assert_eq!(config.get_execution_mode("sh"), ExecutionMode::Stdin);
}

#[test]
fn runtime_override_without_colon_changes_nothing() {
    let mut config = Config::default();
    let overrides = vec!["ruby:ruby3".to_string(), "python".to_string()];
    let result = config.apply_runtime_overrides(&overrides, None);
    assert!(matches!(result, Err(Error::Config(_))));
    assert_eq!(config.get_runtime("ruby"), Some("ruby"));
    assert_eq!(config.get_runtime("python"), Some("python3"));
}

#[test]
fn execution_mode_names() {
    assert_eq!(ExecutionMode::from_name("stdin").unwrap(), ExecutionMode::Stdin);
    assert_eq!(ExecutionMode::from_name("file").unwrap(), ExecutionMode::File);
    assert_eq!(ExecutionMode::from_name("arg").unwrap(), ExecutionMode::Arg);
    assert!(matches!(ExecutionMode::from_name("File"), Err(Error::Config(_))));
    assert!(matches!(ExecutionMode::from_name(""), Err(Error::Config(_))));
    assert_eq!(ExecutionMode::default(), ExecutionMode::Stdin);
}

#[test]
fn config_from_parts_applies_defaults() {
    let config = Config::from_parts(None, None);
    assert_eq!(config.heading_level, 2);
    assert_eq!(config.get_runtime("python"), Some("python3"));

    let only = vec![("python".to_string(), RuntimeConfig::Simple("python3".to_string()))];
    let config = Config::from_parts(Some(only), Some(3));
    assert_eq!(config.heading_level, 3);
    assert_eq!(config.get_runtime("python"), Some("python3"));
    assert_eq!(config.get_runtime("bash"), None);
}

#[test]
fn check_runtimes_names_the_first_missing_program() {
    let config = Config {
        runtimes: vec![
            ("bash".to_string(), RuntimeConfig::Simple("bash".to_string())),
            (
                "go".to_string(),
                RuntimeConfig::Detailed { command: "go run".to_string(), execution_mode: ExecutionMode::File },
            ),
            ("jq".to_string(), RuntimeConfig::Simple("jq".to_string())),
        ],
        heading_level: 2,
    };
    assert!(config.check_runtimes(&[true, true, true]).is_ok());
    match config.check_runtimes(&[true, false, false]) {
        Err(Error::Config(msg)) => {
            assert_eq!(msg, "Runtime 'go' for language 'go' not found in PATH")
        }
        other => panic!("unexpected {:?}", other),
    }
}

#[test]
fn validate_runtimes_reports_an_unknown_program() {
    let config = Config {
        runtimes: vec![(
            "x".to_string(),
            RuntimeConfig::Simple("no-such-program-for-mx-tests --flag".to_string()),
        )],
        heading_level: 2,
    };
    match config.validate_runtimes() {
        Err(Error::Config(msg)) => assert_eq!(
            msg,
            "Runtime 'no-such-program-for-mx-tests' for language 'x' not found in PATH"
        ),
        other => panic!("unexpected {:?}", other),
    }
    let empty = Config { runtimes: vec![], heading_level: 2 };
    assert!(empty.validate_runtimes().is_ok());
}

#[test]
fn default_entries_have_their_variants() {
    let config = Config::default();
    for (lang, runtime) in &config.runtimes {
        match lang.as_str() {
            "go" | "golang" => assert_eq!(
                runtime,
                &RuntimeConfig::Detailed { command: "go run".to_string(), execution_mode: ExecutionMode::File }
            ),
            "mq" => assert_eq!(
                runtime,
                &RuntimeConfig::Detailed { command: "mq".to_string(), execution_mode: ExecutionMode::Arg }
            ),
            "python" => assert_eq!(runtime, &RuntimeConfig::Simple("python3".to_string())),
            "node" | "javascript" | "js" => assert_eq!(runtime, &RuntimeConfig::Simple("node".to_string())),
            other => assert_eq!(runtime, &RuntimeConfig::Simple(other.to_string())),
        }
    }
}
