//! Error types for the key-delivery engine.
//!
//! Every failure the core can report is a variant here, with the data a
//! caller needs to act on it.  Constructors pin the variant and its
//! fields exactly, so callers can prove which error they hold.

use vstd::prelude::*;

verus! {

/// Error raised by configuration validation, key resolution, process
/// acquisition and key delivery.
#[derive(Debug, Clone, PartialEq, Eq)]
pub enum PksError {
    /// The target process was not found after the given number of lookup
    /// attempts.  Fatal to the run.
    ProcessNotFound { name: String, retries: u32 },
    /// A single key token is not in the supported key table.
    InvalidKey { key: String, reason: String },
    /// A `+`-separated combination has no key part, or more than one.
    InvalidKeyCombination { combo: String, reason: String },
    /// A schedule breaks a structural rule (empty process name, no keys,
    /// zero retries).
    ConfigValidation(String),
    /// A configuration could not be read or parsed.
    ConfigLoad { path: String, reason: String },
    /// A configuration could not be written.
    ConfigSave { path: String, reason: String },
    /// A duration string is not a number with an optional `ms`/`s`/`m` unit.
    InvalidDuration { value: String, reason: String },
    /// The requested operation is not available on this platform.
    UnsupportedPlatform(String),
    /// The pause hotkey could not be registered or handled.
    Hotkey(String),
    /// A key could not be delivered to the target window.
    KeySendFailed { key: String, window_id: u64, reason: String },
    /// A window could not be found or focused.
    Window(String),
}

impl PksError {
    /// Build a `ProcessNotFound` error for `name` after `retries` attempts.
    pub fn process_not_found(name: &str, retries: u32) -> (r: Self)
        ensures
            r matches PksError::ProcessNotFound { name: n, retries: k } && n@ == name@ && k
                == retries,
    {
        PksError::ProcessNotFound { name: name.to_owned(), retries }
    }

    /// Build an `InvalidKey` error naming the offending token.
    pub fn invalid_key(key: &str, reason: &str) -> (r: Self)
        ensures
            r matches PksError::InvalidKey { key: k, reason: m } && k@ == key@ && m@ == reason@,
    {
        PksError::InvalidKey { key: key.to_owned(), reason: reason.to_owned() }
    }

    /// Build an `InvalidKeyCombination` error naming the offending combination.
    pub fn invalid_key_combination(combo: &str, reason: &str) -> (r: Self)
        ensures
            r matches PksError::InvalidKeyCombination { combo: c, reason: m } && c@ == combo@ && m@
                == reason@,
    {
        PksError::InvalidKeyCombination { combo: combo.to_owned(), reason: reason.to_owned() }
    }

    /// Build a `ConfigValidation` error with the given message.
    pub fn config_validation(message: &str) -> (r: Self)
        ensures
            r matches PksError::ConfigValidation(m) && m@ == message@,
    {
        PksError::ConfigValidation(message.to_owned())
    }

    /// Build a `ConfigLoad` error for the given path.
    pub fn config_load(path: &str, reason: &str) -> (r: Self)
        ensures
            r matches PksError::ConfigLoad { path: p, reason: m } && p@ == path@ && m@ == reason@,
    {
        PksError::ConfigLoad { path: path.to_owned(), reason: reason.to_owned() }
    }

    /// Build an `InvalidDuration` error naming the offending value.
    pub fn invalid_duration(value: &str, reason: &str) -> (r: Self)
        ensures
            r matches PksError::InvalidDuration { value: v, reason: m } && v@ == value@ && m@
                == reason@,
    {
        PksError::InvalidDuration { value: value.to_owned(), reason: reason.to_owned() }
    }

    /// Build an `UnsupportedPlatform` error with the given message.
    pub fn unsupported_platform(message: &str) -> (r: Self)
        ensures
            r matches PksError::UnsupportedPlatform(m) && m@ == message@,
    {
        PksError::UnsupportedPlatform(message.to_owned())
    }

    /// Build a `Hotkey` error with the given message.
    pub fn hotkey(message: &str) -> (r: Self)
        ensures
            r matches PksError::Hotkey(m) && m@ == message@,
    {
        PksError::Hotkey(message.to_owned())
    }

    /// Build a `KeySendFailed` error for the given key and window.
    pub fn key_send_failed(key: &str, window_id: u64, reason: &str) -> (r: Self)
        ensures
            r matches PksError::KeySendFailed { key: k, window_id: w, reason: m } && k@ == key@ && w
                == window_id && m@ == reason@,
    {
        PksError::KeySendFailed { key: key.to_owned(), window_id, reason: reason.to_owned() }
    }

    /// Build a `Window` error with the given message.
    pub fn window(message: &str) -> (r: Self)
        ensures
            r matches PksError::Window(m) && m@ == message@,
    {
        PksError::Window(message.to_owned())
    }
}

} // verus!
