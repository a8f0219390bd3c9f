use process_key_sender::config::{parse_duration, Config, IndependentKey, KeyAction};
use process_key_sender::error::PksError;

#[test]
fn test_duration_parsing_edge_cases() {
    // Valid cases (milliseconds)
    assert_eq!(parse_duration("0ms").unwrap(), 0);
    assert_eq!(parse_duration("1000").unwrap(), 1000);
    assert_eq!(parse_duration("5S").unwrap(), 5000); // Case insensitive
    assert_eq!(parse_duration(" 2m ").unwrap(), 120_000); // Whitespace

    // Invalid cases
    assert!(parse_duration("").is_err());
    assert!(parse_duration("abc").is_err());
    assert!(parse_duration("1000x").is_err());
    assert!(parse_duration("-1000ms").is_err());
}

#[test]
fn duration_units_and_limits() {
    assert_eq!(parse_duration("500ms").unwrap(), 500);
    assert_eq!(parse_duration("1s").unwrap(), 1000);
    assert_eq!(parse_duration("30s").unwrap(), 30_000);
    assert_eq!(parse_duration("5m").unwrap(), 300_000);
    assert_eq!(parse_duration("2000").unwrap(), 2000);
    assert_eq!(parse_duration("18446744073709551615").unwrap(), u64::MAX);

    match parse_duration("18446744073709551616").unwrap_err() {
        PksError::InvalidDuration { value, reason } => {
            assert_eq!(value, "18446744073709551616");
            assert_eq!(reason, "duration too large");
        }
        other => panic!("unexpected error {:?}", other),
    }
    // overflows only after the unit is applied
    assert!(matches!(
        parse_duration("18446744073709551615s").unwrap_err(),
        PksError::InvalidDuration { .. }
    ));
    match parse_duration("12 34").unwrap_err() {
        PksError::InvalidDuration { value, reason } => {
            assert_eq!(value, "12 34");
            assert_eq!(reason, "expected a number with an optional unit (ms, s, m)");
        }
        other => panic!("unexpected error {:?}", other),
    }
    // a bare unit has no digits
    assert!(parse_duration("ms").is_err());
    assert!(parse_duration("s").is_err());
}

#[test]
fn test_config_validation_errors() {
    // Empty process name
    let mut config = Config {
        process_name: "".to_string(),
        key_sequence: vec![],
        independent_keys: vec![],
        max_retries: 10,
        pause_hotkey: "ctrl+alt+r".to_string(),
        verbose: false,
        loop_sequence: true,
        repeat_count: 0,
        restore_focus: true,
    };

    assert!(config.validate().is_err());

    // No keys configured
    config.process_name = "test.exe".to_string();
    assert!(config.validate().is_err());

    // Zero retries
    config.independent_keys.push(IndependentKey {
        key: "space".to_string(),
        interval: 1000,
    });
    config.max_retries = 0;
    assert!(config.validate().is_err());
}

#[test]
fn validation_error_messages_are_exact() {
    let mut config = Config {
        process_name: String::new(),
        key_sequence: vec![],
        independent_keys: vec![],
        max_retries: 10,
        pause_hotkey: "ctrl+alt+r".to_string(),
        verbose: false,
        loop_sequence: true,
        repeat_count: 0,
        restore_focus: false,
    };
    assert_eq!(
        config.validate().unwrap_err(),
        PksError::ConfigValidation("process_name cannot be empty".to_string())
    );

    config.process_name = "game.exe".to_string();
    assert_eq!(
        config.validate().unwrap_err(),
        PksError::ConfigValidation(
            "at least one of key_sequence or independent_keys must be non-empty".to_string()
        )
    );

    config.key_sequence.push(KeyAction {
        key: "space".to_string(),
        interval_after: 500,
    });
    config.max_retries = 0;
    assert_eq!(
        config.validate().unwrap_err(),
        PksError::ConfigValidation("max_retries must be greater than 0".to_string())
    );

    config.max_retries = 3;
    assert!(config.validate().is_ok());

    // a key that does not resolve fails validation with its own error
    config.key_sequence.push(KeyAction {
        key: "not_a_key".to_string(),
        interval_after: 100,
    });
    assert!(matches!(
        config.validate().unwrap_err(),
        PksError::InvalidKey { .. }
    ));
    config.key_sequence.pop();
    config.independent_keys.push(IndependentKey {
        key: "a+b".to_string(),
        interval: 100,
    });
    assert!(matches!(
        config.validate().unwrap_err(),
        PksError::InvalidKeyCombination { .. }
    ));

    // the first offending key is named: sequence steps before
    // independent keys, in order
    config.key_sequence.push(KeyAction {
        key: "badkey".to_string(),
        interval_after: 100,
    });
    match config.validate().unwrap_err() {
        PksError::InvalidKey { key, .. } => assert_eq!(key, "badkey"),
        other => panic!("unexpected error {:?}", other),
    }
}

#[test]
fn typical_idle_schedule_validates() {
    let config = Config {
        process_name: "Revolution Idle.exe".to_string(),
        key_sequence: vec![],
        independent_keys: vec![
            IndependentKey {
                key: "r".to_string(),
                interval: 1000,
            },
            IndependentKey {
                key: "a".to_string(),
                interval: 5000,
            },
        ],
        max_retries: 10,
        pause_hotkey: "ctrl+alt+r".to_string(),
        verbose: true,
        loop_sequence: true,
        repeat_count: 0,
        restore_focus: false,
    };
    assert!(config.validate().is_ok());

    let config = Config {
        process_name: "notepad.exe".to_string(),
        key_sequence: vec![
            KeyAction {
                key: "1".to_string(),
                interval_after: 500,
            },
            KeyAction {
                key: "2".to_string(),
                interval_after: 500,
            },
            KeyAction {
                key: "space".to_string(),
                interval_after: 1000,
            },
        ],
        independent_keys: vec![],
        max_retries: 5,
        pause_hotkey: "ctrl+alt+r".to_string(),
        verbose: false,
        loop_sequence: false,
        repeat_count: 3,
        restore_focus: false,
    };
    assert!(config.validate().is_ok());

    // complex combinations validate too
    let config = Config {
        process_name: "complex-app.exe".to_string(),
        key_sequence: vec![],
        independent_keys: vec![
            IndependentKey {
                key: "ctrl+s".to_string(),
                interval: 30_000,
            },
            IndependentKey {
                key: "alt+tab".to_string(),
                interval: 10_000,
            },
            IndependentKey {
                key: "f5".to_string(),
                interval: 300_000,
            },
        ],
        max_retries: 10,
        pause_hotkey: "ctrl+alt+r".to_string(),
        verbose: false,
        loop_sequence: true,
        repeat_count: 0,
        restore_focus: false,
    };
    assert!(config.validate().is_ok());
}

#[test]
fn default_config_values() {
    let config = Config::default();
    assert_eq!(config.process_name, "");
    assert!(config.key_sequence.is_empty());
    assert!(config.independent_keys.is_empty());
    assert_eq!(config.max_retries, 10);
    assert_eq!(config.pause_hotkey, "ctrl+alt+r");
    assert!(!config.verbose);
    assert!(config.loop_sequence);
    assert_eq!(config.repeat_count, 0);
    assert!(!config.restore_focus);

    // the default alone does not validate: no process name, no keys
    assert!(config.validate().is_err());
}
