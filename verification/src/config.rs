//! The schedule model: key actions, independent keys, durations, and
//! the configuration that the delivery engine runs.
//!
//! Durations are plain millisecond counts parsed from strings such as
//! `"500ms"`, `"2s"`, `"5m"` or a bare number of milliseconds.
//! Validation enforces the structural rules — a non-empty process
//! name, at least one configured key, a positive retry limit — and
//! resolves every configured key identifier.
//!
//! Reading and writing configuration files is plain serialization with
//! no algorithmic content; it stays outside the library.

use vstd::prelude::*;
use crate::error::PksError;
use crate::keys::{
    is_digit_char, key_parts, lower_seq, parse_hotkey, spec_key_code, trim_seq, chars_of,
    lower_chars, trim_chars,
};

verus! {

/// One step of the ordered key sequence: press `key`, then wait
/// `interval_after` milliseconds before the next step.
#[derive(Clone, Debug)]
pub struct KeyAction {
    pub key: String,
    pub interval_after: u64,
}

/// A key pressed repeatedly every `interval` milliseconds, independent
/// of the sequence and of other independent keys.
#[derive(Clone, Debug)]
pub struct IndependentKey {
    pub key: String,
    pub interval: u64,
}

/// The full delivery schedule.
///
/// Invariant, enforced by `validate`: `process_name` is non-empty, at
/// least one of `key_sequence` / `independent_keys` is non-empty,
/// `max_retries > 0`, and every configured key resolves.
/// `repeat_count == 0` means the sequence repeats without bound when
/// `loop_sequence` is set.  `pause_hotkey` is an opaque token owned by
/// the hotkey collaborator; the core does not interpret it.
#[derive(Clone, Debug)]
pub struct Config {
    pub process_name: String,
    pub key_sequence: Vec<KeyAction>,
    pub independent_keys: Vec<IndependentKey>,
    pub max_retries: u32,
    pub pause_hotkey: String,
    pub verbose: bool,
    pub loop_sequence: bool,
    pub repeat_count: u32,
    pub restore_focus: bool,
}

/// The numeric value of a digit string, most significant digit first.
pub open spec fn digits_value(s: Seq<char>) -> int
    decreases s.len(),
{
    if s.len() == 0 {
        0
    } else {
        digits_value(s.drop_last()) * 10 + (s.last() as u32 - 48)
    }
}

/// A non-empty string of decimal digits.
pub open spec fn all_digits(s: Seq<char>) -> bool {
    s.len() > 0 && forall|k: int| 0 <= k < s.len() ==> is_digit_char(s[k])
}

/// The digit part and unit multiplier of a duration string, after
/// lowercasing and trimming: `ms` is milliseconds, `s` seconds, `m`
/// minutes, and a bare number counts milliseconds.
pub open spec fn duration_parts(s: Seq<char>) -> (Seq<char>, int) {
    let t = trim_seq(lower_seq(s));
    if t.len() >= 2 && t[t.len() - 2] == 'm' && t[t.len() - 1] == 's' {
        (t.take(t.len() - 2), 1)
    } else if t.len() >= 1 && t[t.len() - 1] == 's' {
        (t.take(t.len() - 1), 1000)
    } else if t.len() >= 1 && t[t.len() - 1] == 'm' {
        (t.take(t.len() - 1), 60000)
    } else {
        (t, 1)
    }
}

/// What a duration string denotes in milliseconds, if well-formed.
pub open spec fn spec_duration_ms(s: Seq<char>) -> Option<int> {
    let (d, m) = duration_parts(s);
    if all_digits(d) {
        Some(digits_value(d) * m)
    } else {
        None
    }
}

proof fn lemma_digits_value_nonneg(s: Seq<char>)
    requires
        forall|k: int| 0 <= k < s.len() ==> is_digit_char(s[k]),
    ensures
        digits_value(s) >= 0,
    decreases s.len(),
{
    if s.len() > 0 {
        lemma_digits_value_nonneg(s.drop_last());
    }
}

proof fn lemma_digits_value_prefix(s: Seq<char>, i: int)
    requires
        forall|k: int| 0 <= k < s.len() ==> is_digit_char(s[k]),
        0 <= i <= s.len(),
    ensures
        digits_value(s.take(i)) <= digits_value(s),
    decreases s.len() - i,
{
    if i < s.len() {
        lemma_digits_value_prefix(s, i + 1);
        let t = s.take(i + 1);
        assert(t.drop_last() =~= s.take(i));
        lemma_digits_value_nonneg(s.take(i));
        assert(digits_value(s.take(i)) <= digits_value(t));
    } else {
        assert(s.take(i) =~= s);
    }
}

/// Parse a duration string into milliseconds.
///
/// Accepts a decimal number with an optional unit: `ms`, `s`
/// (seconds) or `m` (minutes); a bare number is milliseconds.  Case
/// and surrounding whitespace are ignored.  A malformed string yields
/// `InvalidDuration` ("expected a number with an optional unit"); a
/// value that does not fit in 64 bits of milliseconds yields
/// `InvalidDuration` ("duration too large").
pub fn parse_duration(value: &str) -> (r: Result<u64, PksError>)
    ensures
        ({
            let d = spec_duration_ms(value@);
            &&& d matches Some(n) ==> ((n <= u64::MAX ==> r == Ok::<u64, PksError>(n as u64)) && (n
                > u64::MAX ==> (r matches Err(e) && e matches PksError::InvalidDuration {
                value: v,
                reason,
            } && v@ == value@ && reason@ == "duration too large"@)))
            &&& d is None ==> (r matches Err(e) && e matches PksError::InvalidDuration {
                value: v,
                reason,
            } && v@ == value@ && reason@ == "expected a number with an optional unit (ms, s, m)"@)
        }),
{
    let chars = chars_of(value);
    let lowered = lower_chars(&chars);
    let t = trim_chars(&lowered);
    let n = t.len();
    let ghost parts = duration_parts(value@);
    let (digits_end, mult): (usize, u64) = if n >= 2 && t[n - 2] == 'm' && t[n - 1] == 's' {
        (n - 2, 1)
    } else if n >= 1 && t[n - 1] == 's' {
        (n - 1, 1000)
    } else if n >= 1 && t[n - 1] == 'm' {
        (n - 1, 60000)
    } else {
        (n, 1)
    };
    proof {
        assert(t@.take(digits_end as int) == parts.0);
        assert(mult == parts.1);
    }
    if digits_end == 0 {
        proof {
            assert(!all_digits(parts.0));
        }
        return Err(PksError::invalid_duration(
            value,
            "expected a number with an optional unit (ms, s, m)",
        ));
    }
    let mut i: usize = 0;
    while i < digits_end
        invariant
            digits_end <= t@.len(),
            i <= digits_end,
            t@.take(digits_end as int) == duration_parts(value@).0,
            forall|k: int| 0 <= k < i ==> is_digit_char(t@[k]),
        decreases digits_end - i,
    {
        let c = t[i];
        let u = c as u32;
        if !(48 <= u && u <= 57) {
            proof {
                assert(!is_digit_char(duration_parts(value@).0[i as int]));
            }
            return Err(PksError::invalid_duration(
                value,
                "expected a number with an optional unit (ms, s, m)",
            ));
        }
        i = i + 1;
    }
    proof {
        assert forall|k: int| 0 <= k < digits_end implies is_digit_char(
            #[trigger] duration_parts(value@).0[k],
        ) by {
            assert(duration_parts(value@).0[k] == t@[k]);
        }
        assert(all_digits(duration_parts(value@).0));
    }
    let mut acc: u64 = 0;
    let mut j: usize = 0;
    while j < digits_end
        invariant
            digits_end <= t@.len(),
            j <= digits_end,
            t@.take(digits_end as int) == duration_parts(value@).0,
            mult == duration_parts(value@).1,
            all_digits(duration_parts(value@).0),
            forall|k: int| 0 <= k < digits_end ==> is_digit_char(t@[k]),
            acc == digits_value(t@.take(digits_end as int).take(j as int)),
        decreases digits_end - j,
    {
        let c = t[j];
        let u = c as u32;
        let d = (u - 48) as u64;
        proof {
            let full = t@.take(digits_end as int);
            assert(full.take(j + 1).drop_last() =~= full.take(j as int));
            assert(full.take(j + 1).last() == full[j as int]);
        }
        let acc10 = match acc.checked_mul(10) {
            Some(v) => v,
            None => {
                proof {
                    overflow_reasoning(t@.take(digits_end as int), j as int);
                }
                return Err(PksError::invalid_duration(value, "duration too large"));
            },
        };
        let next = match acc10.checked_add(d) {
            Some(v) => v,
            None => {
                proof {
                    overflow_reasoning(t@.take(digits_end as int), j as int);
                }
                return Err(PksError::invalid_duration(value, "duration too large"));
            },
        };
        acc = next;
        j = j + 1;
    }
    proof {
        let full = t@.take(digits_end as int);
        assert(full.take(digits_end as int) =~= full);
        assert(acc == digits_value(full));
        lemma_digits_value_nonneg(full);
    }
    match acc.checked_mul(mult) {
        Some(ms) => Ok(ms),
        None => Err(PksError::invalid_duration(value, "duration too large")),
    }
}

proof fn overflow_reasoning(s: Seq<char>, i: int)
    requires
        forall|k: int| 0 <= k < s.len() ==> is_digit_char(s[k]),
        0 <= i < s.len(),
        digits_value(s.take(i + 1)) > u64::MAX,
    ensures
        digits_value(s) > u64::MAX,
{
    lemma_digits_value_prefix(s, i + 1);
}

/// Whether a key token resolves to exactly one key with modifiers.
pub open spec fn spec_token_ok(t: Seq<char>) -> bool {
    key_parts(t).len() == 1 && spec_key_code(key_parts(t)[0]) is Some
}

/// Whether every key named by the schedule resolves.
pub open spec fn spec_keys_ok(c: Config) -> bool {
    &&& forall|i: int|
        0 <= i < c.key_sequence@.len() ==> spec_token_ok(#[trigger] c.key_sequence@[i].key@)
    &&& forall|i: int|
        0 <= i < c.independent_keys@.len() ==> spec_token_ok(
            #[trigger] c.independent_keys@[i].key@,
        )
}

/// Every key token the schedule names, sequence steps first.
pub open spec fn config_tokens(c: Config) -> Seq<Seq<char>> {
    c.key_sequence@.map_values(|a: KeyAction| a.key@) + c.independent_keys@.map_values(
        |k: IndependentKey| k.key@,
    )
}

/// The first token in `ts` that does not resolve, if any.
pub open spec fn first_bad_token(ts: Seq<Seq<char>>) -> Option<Seq<char>>
    decreases ts.len(),
{
    if ts.len() == 0 {
        None
    } else if !spec_token_ok(ts[0]) {
        Some(ts[0])
    } else {
        first_bad_token(ts.drop_first())
    }
}

/// Whether `e` is exactly the error key resolution reports for `t`
/// (see `parse_hotkey`'s contract).
pub open spec fn resolve_error_matches(t: Seq<char>, e: PksError) -> bool {
    let kp = key_parts(t);
    if kp.len() == 0 {
        e matches PksError::InvalidKeyCombination { combo, reason } && combo@ == t && reason@
            == "no key specified"@
    } else if kp.len() > 1 {
        e matches PksError::InvalidKeyCombination { combo, reason } && combo@ == t && reason@
            == "multiple keys specified"@
    } else {
        e matches PksError::InvalidKey { key, reason } && key@ == kp[0] && reason@
            == "unknown key"@
    }
}

proof fn lemma_first_bad_at(ts: Seq<Seq<char>>, i: int)
    requires
        0 <= i < ts.len(),
        !spec_token_ok(ts[i]),
        forall|k: int| 0 <= k < i ==> spec_token_ok(#[trigger] ts[k]),
    ensures
        first_bad_token(ts) == Some(ts[i]),
    decreases i,
{
    if i > 0 {
        lemma_first_bad_at(ts.drop_first(), i - 1);
    }
}

proof fn lemma_no_bad_token(ts: Seq<Seq<char>>)
    requires
        forall|k: int| 0 <= k < ts.len() ==> spec_token_ok(#[trigger] ts[k]),
    ensures
        first_bad_token(ts) is None,
    decreases ts.len(),
{
    if ts.len() > 0 {
        lemma_no_bad_token(ts.drop_first());
    }
}

/// Whether the whole configuration is acceptable to `validate`.
pub open spec fn spec_config_ok(c: Config) -> bool {
    &&& c.process_name@.len() > 0
    &&& c.key_sequence@.len() + c.independent_keys@.len() > 0
    &&& c.max_retries > 0
    &&& spec_keys_ok(c)
}

impl Config {
    /// Check the structural rules and resolve every configured key.
    ///
    /// Returns `Ok` exactly when the configuration is acceptable:
    /// non-empty process name, at least one key configured, a positive
    /// retry limit, and every key token resolving to one key.  The
    /// three structural failures yield `ConfigValidation` with fixed
    /// messages, checked in that order; an unresolvable key yields the
    /// error of its own resolution.
    pub fn validate(&self) -> (r: Result<(), PksError>)
        ensures
            r is Ok <==> spec_config_ok(*self),
            self.process_name@.len() == 0 ==> (r matches Err(e)
                && e matches PksError::ConfigValidation(m) && m@
                == "process_name cannot be empty"@),
            self.process_name@.len() > 0 && self.key_sequence@.len() + self.independent_keys@.len()
                == 0 ==> (r matches Err(e) && e matches PksError::ConfigValidation(m) && m@
                == "at least one of key_sequence or independent_keys must be non-empty"@),
            self.process_name@.len() > 0 && self.key_sequence@.len() + self.independent_keys@.len()
                > 0 && self.max_retries == 0 ==> (r matches Err(e)
                && e matches PksError::ConfigValidation(m) && m@
                == "max_retries must be greater than 0"@),
            self.process_name@.len() > 0 && self.key_sequence@.len() + self.independent_keys@.len()
                > 0 && self.max_retries > 0 && !spec_keys_ok(*self) ==> (r matches Err(e)
                && first_bad_token(config_tokens(*self)) matches Some(t) && resolve_error_matches(
                t,
                e,
            )),
    {
        if self.process_name.as_str().is_empty() {
            return Err(PksError::config_validation("process_name cannot be empty"));
        }
        if self.key_sequence.len() == 0 && self.independent_keys.len() == 0 {
            return Err(
                PksError::config_validation(
                    "at least one of key_sequence or independent_keys must be non-empty",
                ),
            );
        }
        if self.max_retries == 0 {
            return Err(PksError::config_validation("max_retries must be greater than 0"));
        }
        let mut i: usize = 0;
        let n = self.key_sequence.len();
        while i < n
            invariant
                n == self.key_sequence@.len(),
                i <= n,
                self.process_name@.len() > 0,
                self.key_sequence@.len() + self.independent_keys@.len() > 0,
                self.max_retries > 0,
                forall|k: int| 0 <= k < i ==> spec_token_ok(#[trigger] self.key_sequence@[k].key@),
            decreases n - i,
        {
            match parse_hotkey(self.key_sequence[i].key.as_str()) {
                Ok(_) => {},
                Err(e) => {
                    proof {
                        let ts = config_tokens(*self);
                        assert(ts[i as int] == self.key_sequence@[i as int].key@);
                        assert forall|k: int| 0 <= k < i implies spec_token_ok(
                            #[trigger] ts[k],
                        ) by {
                            assert(ts[k] == self.key_sequence@[k].key@);
                        }
                        lemma_first_bad_at(ts, i as int);
                    }
                    return Err(e);
                },
            }
            i = i + 1;
        }
        let mut j: usize = 0;
        let m = self.independent_keys.len();
        while j < m
            invariant
                m == self.independent_keys@.len(),
                j <= m,
                self.process_name@.len() > 0,
                self.key_sequence@.len() + self.independent_keys@.len() > 0,
                self.max_retries > 0,
                forall|k: int| 0 <= k < self.key_sequence@.len() ==> spec_token_ok(#[trigger] self.key_sequence@[k].key@),
                forall|k: int|
                    0 <= k < j ==> spec_token_ok(#[trigger] self.independent_keys@[k].key@),
            decreases m - j,
        {
            match parse_hotkey(self.independent_keys[j].key.as_str()) {
                Ok(_) => {},
                Err(e) => {
                    proof {
                        let ts = config_tokens(*self);
                        let ksl = self.key_sequence@.len() as int;
                        assert(ts[ksl + j] == self.independent_keys@[j as int].key@);
                        assert forall|k: int| 0 <= k < ksl + j implies spec_token_ok(
                            #[trigger] ts[k],
                        ) by {
                            if k < ksl {
                                assert(ts[k] == self.key_sequence@[k].key@);
                            } else {
                                assert(ts[k] == self.independent_keys@[k - ksl].key@);
                            }
                        }
                        lemma_first_bad_at(ts, ksl + j);
                    }
                    return Err(e);
                },
            }
            j = j + 1;
        }
        Ok(())
    }
}

impl Default for Config {
    /// The defaults a minimal configuration starts from: empty key
    /// lists, ten lookup attempts, the `ctrl+alt+r` pause hotkey,
    /// looping enabled without a repeat bound.  The process name
    /// starts empty and must be filled in before validation passes.
    fn default() -> (r: Config)
        ensures
            r.process_name@ == Seq::<char>::empty(),
            r.key_sequence@ == Seq::<KeyAction>::empty(),
            r.independent_keys@ == Seq::<IndependentKey>::empty(),
            r.max_retries == 10,
            r.pause_hotkey@ == "ctrl+alt+r"@,
            r.verbose == false,
            r.loop_sequence == true,
            r.repeat_count == 0,
            r.restore_focus == false,
    {
        Config {
            process_name: String::new(),
            key_sequence: Vec::new(),
            independent_keys: Vec::new(),
            max_retries: 10,
            pause_hotkey: "ctrl+alt+r".to_owned(),
            verbose: false,
            loop_sequence: true,
            repeat_count: 0,
            restore_focus: false,
        }
    }
}

} // verus!
