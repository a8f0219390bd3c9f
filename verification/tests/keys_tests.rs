use process_key_sender::error::PksError;
use process_key_sender::key_sender::KeySender;
use process_key_sender::keys::{parse_hotkey, parse_key_code, KeyCode};

#[test]
fn test_key_validation_valid_keys() {
    let sender = KeySender::new().unwrap();

    // Letters
    assert!(sender.parse_key_for_validation("a").is_ok());
    assert!(sender.parse_key_for_validation("z").is_ok());
    assert!(sender.parse_key_for_validation("A").is_ok());

    // Numbers
    assert!(sender.parse_key_for_validation("0").is_ok());
    assert!(sender.parse_key_for_validation("9").is_ok());

    // Special keys
    assert!(sender.parse_key_for_validation("space").is_ok());
    assert!(sender.parse_key_for_validation("enter").is_ok());
    assert!(sender.parse_key_for_validation("tab").is_ok());
    assert!(sender.parse_key_for_validation("escape").is_ok());

    // Function keys
    assert!(sender.parse_key_for_validation("f1").is_ok());
    assert!(sender.parse_key_for_validation("f12").is_ok());

    // Arrow keys
    assert!(sender.parse_key_for_validation("left").is_ok());
    assert!(sender.parse_key_for_validation("right").is_ok());
    assert!(sender.parse_key_for_validation("up").is_ok());
    assert!(sender.parse_key_for_validation("down").is_ok());
}

#[test]
fn test_key_validation_invalid_keys() {
    let sender = KeySender::new().unwrap();

    assert!(sender.parse_key_for_validation("invalid_key_xyz").is_err());
    assert!(sender.parse_key_for_validation("").is_err());
}

#[test]
fn test_key_validation_modifiers() {
    let sender = KeySender::new().unwrap();

    assert!(sender.parse_key_for_validation("ctrl").is_ok());
    assert!(sender.parse_key_for_validation("shift").is_ok());
    assert!(sender.parse_key_for_validation("alt").is_ok());
}

#[test]
fn test_key_sender_creation() {
    let sender = KeySender::new();
    assert!(sender.is_ok());
}

#[test]
fn test_key_sender_clone() {
    let sender = KeySender::new().unwrap();
    let sender2 = sender.clone();
    drop(sender);
    drop(sender2);
}

#[test]
fn resolve_is_total_on_the_supported_table() {
    let mut tokens: Vec<String> = Vec::new();
    for c in 'a'..='z' {
        tokens.push(c.to_string());
    }
    for c in '0'..='9' {
        tokens.push(c.to_string());
    }
    for n in 1..=12 {
        tokens.push(format!("f{}", n));
    }
    for name in [
        "space",
        "enter",
        "return",
        "tab",
        "escape",
        "esc",
        "backspace",
        "delete",
        "insert",
        "home",
        "end",
        "pageup",
        "pagedown",
        "up",
        "arrowup",
        "down",
        "arrowdown",
        "left",
        "arrowleft",
        "right",
        "arrowright",
    ] {
        tokens.push(name.to_string());
    }
    for token in &tokens {
        assert!(parse_key_code(token).is_ok(), "token {} must resolve", token);
        assert!(parse_hotkey(token).is_ok(), "token {} must resolve", token);
    }
}

#[test]
fn parse_key_code_exact_values() {
    assert_eq!(parse_key_code("a").unwrap(), KeyCode::Letter('a'));
    assert_eq!(parse_key_code("z").unwrap(), KeyCode::Letter('z'));
    assert_eq!(parse_key_code("0").unwrap(), KeyCode::Digit('0'));
    assert_eq!(parse_key_code("7").unwrap(), KeyCode::Digit('7'));
    assert_eq!(parse_key_code("f1").unwrap(), KeyCode::Function(1));
    assert_eq!(parse_key_code("f9").unwrap(), KeyCode::Function(9));
    assert_eq!(parse_key_code("f10").unwrap(), KeyCode::Function(10));
    assert_eq!(parse_key_code("f12").unwrap(), KeyCode::Function(12));
    assert_eq!(parse_key_code("space").unwrap(), KeyCode::Space);
    assert_eq!(parse_key_code("return").unwrap(), KeyCode::Enter);
    assert_eq!(parse_key_code("enter").unwrap(), KeyCode::Enter);
    assert_eq!(parse_key_code("esc").unwrap(), KeyCode::Escape);
    assert_eq!(parse_key_code("pagedown").unwrap(), KeyCode::PageDown);
    assert_eq!(parse_key_code("arrowleft").unwrap(), KeyCode::ArrowLeft);
    // f0 and f13 are not function keys
    assert!(parse_key_code("f0").is_err());
    assert!(parse_key_code("f13").is_err());
    // parse_key_code does not normalize; parse_hotkey does
    assert!(parse_key_code("A").is_err());
}

#[test]
fn parse_hotkey_combinations() {
    let c = parse_hotkey("ctrl+s").unwrap();
    assert_eq!(c.code, KeyCode::Letter('s'));
    assert!(c.modifiers.control);
    assert!(!c.modifiers.alt);
    assert!(!c.modifiers.shift);
    assert!(!c.modifiers.meta);

    let c = parse_hotkey("ctrl+shift+p").unwrap();
    assert_eq!(c.code, KeyCode::Letter('p'));
    assert!(c.modifiers.control && c.modifiers.shift);

    let c = parse_hotkey("alt+tab").unwrap();
    assert_eq!(c.code, KeyCode::Tab);
    assert!(c.modifiers.alt);

    // case-insensitive, whitespace-tolerant
    let c = parse_hotkey(" Ctrl + Alt + R ").unwrap();
    assert_eq!(c.code, KeyCode::Letter('r'));
    assert!(c.modifiers.control && c.modifiers.alt);

    // all modifier aliases
    let c = parse_hotkey("control+meta+x").unwrap();
    assert!(c.modifiers.control && c.modifiers.meta);
    let c = parse_hotkey("cmd+x").unwrap();
    assert!(c.modifiers.meta);
    let c = parse_hotkey("super+x").unwrap();
    assert!(c.modifiers.meta);
}

#[test]
fn modifier_order_is_irrelevant() {
    assert_eq!(
        parse_hotkey("ctrl+alt+r").unwrap(),
        parse_hotkey("alt+ctrl+r").unwrap()
    );
    assert_eq!(
        parse_hotkey("ctrl+alt+shift+f5").unwrap(),
        parse_hotkey("shift+ctrl+alt+f5").unwrap()
    );
    assert_eq!(
        parse_hotkey("alt+r+ctrl").unwrap(),
        parse_hotkey("ctrl+alt+r").unwrap()
    );
}

#[test]
fn combinations_need_exactly_one_key() {
    // zero non-modifier parts
    match parse_hotkey("ctrl").unwrap_err() {
        PksError::InvalidKeyCombination { combo, reason } => {
            assert_eq!(combo, "ctrl");
            assert_eq!(reason, "no key specified");
        }
        other => panic!("unexpected error {:?}", other),
    }
    assert!(matches!(
        parse_hotkey("ctrl+alt").unwrap_err(),
        PksError::InvalidKeyCombination { .. }
    ));

    // two or more non-modifier parts
    match parse_hotkey("a+b").unwrap_err() {
        PksError::InvalidKeyCombination { combo, reason } => {
            assert_eq!(combo, "a+b");
            assert_eq!(reason, "multiple keys specified");
        }
        other => panic!("unexpected error {:?}", other),
    }
    assert!(matches!(
        parse_hotkey("ctrl+a+b").unwrap_err(),
        PksError::InvalidKeyCombination { .. }
    ));
    // even when the extra parts are unknown tokens
    assert!(matches!(
        parse_hotkey("xyz+abc").unwrap_err(),
        PksError::InvalidKeyCombination { .. }
    ));
}

#[test]
fn unknown_keys_are_named_in_the_error() {
    match parse_hotkey("xyz").unwrap_err() {
        PksError::InvalidKey { key, reason } => {
            assert_eq!(key, "xyz");
            assert_eq!(reason, "unknown key");
        }
        other => panic!("unexpected error {:?}", other),
    }
    match parse_hotkey("ctrl+bogus").unwrap_err() {
        PksError::InvalidKey { key, .. } => assert_eq!(key, "bogus"),
        other => panic!("unexpected error {:?}", other),
    }
    assert!(matches!(
        parse_key_code("kp_enter").unwrap_err(),
        PksError::InvalidKey { .. }
    ));
}

#[test]
fn resolving_twice_gives_the_same_result() {
    for token in ["ctrl+alt+r", "space", "xyz", "ctrl", "a+b", " F5 "] {
        assert_eq!(parse_hotkey(token), parse_hotkey(token));
        assert_eq!(parse_key_code(token), parse_key_code(token));
    }
}
