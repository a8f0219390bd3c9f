use process_key_sender::error::PksError;

#[test]
fn constructors_pin_variant_and_fields() {
    match PksError::process_not_found("game.exe", 10) {
        PksError::ProcessNotFound { name, retries } => {
            assert_eq!(name, "game.exe");
            assert_eq!(retries, 10);
        }
        other => panic!("unexpected {:?}", other),
    }
    match PksError::invalid_key("xyz", "unknown key") {
        PksError::InvalidKey { key, reason } => {
            assert_eq!(key, "xyz");
            assert_eq!(reason, "unknown key");
        }
        other => panic!("unexpected {:?}", other),
    }
    match PksError::invalid_key_combination("a+b", "multiple keys specified") {
        PksError::InvalidKeyCombination { combo, reason } => {
            assert_eq!(combo, "a+b");
            assert_eq!(reason, "multiple keys specified");
        }
        other => panic!("unexpected {:?}", other),
    }
    assert_eq!(
        PksError::config_validation("process_name cannot be empty"),
        PksError::ConfigValidation("process_name cannot be empty".to_string())
    );
    match PksError::config_load("a.json", "missing field") {
        PksError::ConfigLoad { path, reason } => {
            assert_eq!(path, "a.json");
            assert_eq!(reason, "missing field");
        }
        other => panic!("unexpected {:?}", other),
    }
    match PksError::invalid_duration("1000x", "expected a number with an optional unit (ms, s, m)")
    {
        PksError::InvalidDuration { value, .. } => assert_eq!(value, "1000x"),
        other => panic!("unexpected {:?}", other),
    }
    assert_eq!(
        PksError::unsupported_platform("wayland"),
        PksError::UnsupportedPlatform("wayland".to_string())
    );
    assert_eq!(
        PksError::hotkey("already registered"),
        PksError::Hotkey("already registered".to_string())
    );
    match PksError::key_send_failed("space", 42, "window closed") {
        PksError::KeySendFailed {
            key,
            window_id,
            reason,
        } => {
            assert_eq!(key, "space");
            assert_eq!(window_id, 42);
            assert_eq!(reason, "window closed");
        }
        other => panic!("unexpected {:?}", other),
    }
    assert_eq!(
        PksError::window("no focus"),
        PksError::Window("no focus".to_string())
    );
}
