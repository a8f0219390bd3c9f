//! Key validation for the delivery path.
//!
//! `KeySender` validates key tokens against the same resolution rules
//! the dispatch path uses.  The OS-level injection a validated token
//! is destined for is platform glue and lives with the binary; the
//! engine treats its outcome as an event (see `sequence` and
//! `independent`).

use vstd::prelude::*;
use crate::error::PksError;
use crate::keys::{classify, key_code_of, key_parts, spec_key_code, string_from_chars};

verus! {

/// Validates key identifiers before they are scheduled for delivery.
#[derive(Clone, Debug)]
pub struct KeySender {}

impl KeySender {
    /// Create a validator.  Validation needs no platform resources, so
    /// creation always succeeds.
    pub fn new() -> (r: Result<KeySender, PksError>)
        ensures
            r is Ok,
    {
        Ok(KeySender {})
    }

    /// Check that a token could be delivered: every part must be a
    /// modifier or a key from the table, with at most one key part.
    ///
    /// Unlike `parse_hotkey`, a token of modifiers alone (`ctrl`) is
    /// accepted — pressing bare modifiers is deliverable.  Exactly the
    /// tokens with two or more key parts (`InvalidKeyCombination`) or
    /// with a single unknown key part (`InvalidKey`) are rejected.
    pub fn parse_key_for_validation(&self, key: &str) -> (r: Result<(), PksError>)
        ensures
            ({
                let kp = key_parts(key@);
                &&& r is Ok <==> (kp.len() == 0 || (kp.len() == 1 && spec_key_code(kp[0]) is Some))
                &&& kp.len() > 1 ==> (r matches Err(e)
                    && e matches PksError::InvalidKeyCombination { combo, reason } && combo@
                    == key@ && reason@ == "multiple keys specified"@)
                &&& (kp.len() == 1 && spec_key_code(kp[0]) is None) ==> (r matches Err(e)
                    && e matches PksError::InvalidKey { key: k, reason } && k@ == kp[0] && reason@
                    == "unknown key"@)
            }),
    {
        let c = classify(key);
        if c.key_count == 0 {
            Ok(())
        } else if c.key_count > 1 {
            Err(PksError::invalid_key_combination(key, "multiple keys specified"))
        } else {
            let part = &c.parts[c.key_index];
            match key_code_of(part) {
                Some(_) => Ok(()),
                None => {
                    let k = string_from_chars(part);
                    Err(PksError::InvalidKey { key: k, reason: "unknown key".to_owned() })
                },
            }
        }
    }
}

} // verus!
