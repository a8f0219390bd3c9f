//! Key-identifier resolution.
//!
//! A key identifier is a string token naming either a single symbolic
//! key (`a`–`z`, `0`–`9`, `f1`–`f12`, named specials, arrows) or a
//! modifier combination such as `ctrl+s`.  Resolution lowercases the
//! token (ASCII), splits it on `+`, trims each part, classifies every
//! part as a modifier or a candidate key, and requires exactly one
//! non-modifier part.  The whole pipeline is specified over the token's
//! character sequence, so resolution is a pure function of its input.

use vstd::prelude::*;
use vstd::string::StrSliceExecFns;
use crate::error::PksError;

verus! {

/// A resolved platform-independent key code.
///
/// `Letter` holds a lowercase ASCII letter, `Digit` a decimal digit
/// character, `Function` a number in `1..=12`.
#[derive(Clone, Copy, Debug, PartialEq, Eq, Hash, Structural)]
pub enum KeyCode {
    Letter(char),
    Digit(char),
    Function(u8),
    Space,
    Enter,
    Tab,
    Escape,
    Backspace,
    Delete,
    Insert,
    Home,
    End,
    PageUp,
    PageDown,
    ArrowUp,
    ArrowDown,
    ArrowLeft,
    ArrowRight,
}

/// The set of modifier keys accumulated from a combination token.
#[derive(Clone, Copy, Debug, PartialEq, Eq, Hash, Structural)]
pub struct Modifiers {
    pub control: bool,
    pub alt: bool,
    pub shift: bool,
    pub meta: bool,
}

impl Modifiers {
    /// The empty modifier set.
    pub fn none() -> (r: Modifiers)
        ensures
            r == (Modifiers { control: false, alt: false, shift: false, meta: false }),
    {
        Modifiers { control: false, alt: false, shift: false, meta: false }
    }
}

/// A fully resolved key identifier: a key code plus its modifier set.
#[derive(Clone, Copy, Debug, PartialEq, Eq, Hash, Structural)]
pub struct KeyCombination {
    pub modifiers: Modifiers,
    pub code: KeyCode,
}

/// Whether `c` is a lowercase ASCII letter.
pub open spec fn is_lower_letter(c: char) -> bool {
    97 <= c as u32 && c as u32 <= 122
}

/// Whether `c` is a decimal digit.
pub open spec fn is_digit_char(c: char) -> bool {
    48 <= c as u32 && c as u32 <= 57
}

/// ASCII lowercasing of a single character; other characters are kept.
pub open spec fn spec_lower(c: char) -> char {
    if 65 <= c as u32 && c as u32 <= 90 {
        ((c as u32) + 32) as char
    } else {
        c
    }
}

/// ASCII lowercasing of a character sequence.
pub open spec fn lower_seq(s: Seq<char>) -> Seq<char> {
    s.map_values(|c: char| spec_lower(c))
}

/// The single-token key table: what a lone (already lowercased,
/// trimmed) token resolves to, if anything.
pub open spec fn spec_key_code(s: Seq<char>) -> Option<KeyCode> {
    if s.len() == 1 && is_lower_letter(s[0]) {
        Some(KeyCode::Letter(s[0]))
    } else if s.len() == 1 && is_digit_char(s[0]) {
        Some(KeyCode::Digit(s[0]))
    } else if s.len() == 2 && s[0] == 'f' && 49 <= s[1] as u32 && s[1] as u32 <= 57 {
        Some(KeyCode::Function((s[1] as u32 - 48) as u8))
    } else if s.len() == 3 && s[0] == 'f' && s[1] == '1' && 48 <= s[2] as u32 && s[2] as u32
        <= 50 {
        Some(KeyCode::Function((10 + s[2] as u32 - 48) as u8))
    } else if s == "space"@ {
        Some(KeyCode::Space)
    } else if s == "enter"@ || s == "return"@ {
        Some(KeyCode::Enter)
    } else if s == "tab"@ {
        Some(KeyCode::Tab)
    } else if s == "escape"@ || s == "esc"@ {
        Some(KeyCode::Escape)
    } else if s == "backspace"@ {
        Some(KeyCode::Backspace)
    } else if s == "delete"@ {
        Some(KeyCode::Delete)
    } else if s == "insert"@ {
        Some(KeyCode::Insert)
    } else if s == "home"@ {
        Some(KeyCode::Home)
    } else if s == "end"@ {
        Some(KeyCode::End)
    } else if s == "pageup"@ {
        Some(KeyCode::PageUp)
    } else if s == "pagedown"@ {
        Some(KeyCode::PageDown)
    } else if s == "up"@ || s == "arrowup"@ {
        Some(KeyCode::ArrowUp)
    } else if s == "down"@ || s == "arrowdown"@ {
        Some(KeyCode::ArrowDown)
    } else if s == "left"@ || s == "arrowleft"@ {
        Some(KeyCode::ArrowLeft)
    } else if s == "right"@ || s == "arrowright"@ {
        Some(KeyCode::ArrowRight)
    } else {
        None
    }
}

/// Collect the characters of a string into a vector.
pub fn chars_of(s: &str) -> (r: Vec<char>)
    ensures
        r@ == s@,
{
    let n = s.unicode_len();
    let mut r: Vec<char> = Vec::new();
    let mut i: usize = 0;
    while i < n
        invariant
            n == s@.len(),
            i <= n,
            r@ == s@.take(i as int),
        decreases n - i,
    {
        r.push(s.get_char(i));
        i = i + 1;
        proof {
            assert(r@ =~= s@.take(i as int));
        }
    }
    proof {
        assert(r@ =~= s@);
    }
    r
}

/// Compare a character vector against a string pattern.
pub fn part_eq(t: &Vec<char>, pat: &str) -> (r: bool)
    ensures
        r == (t@ == pat@),
{
    let n = pat.unicode_len();
    if t.len() != n {
        proof {
            assert(t@.len() != pat@.len());
        }
        return false;
    }
    let mut i: usize = 0;
    while i < n
        invariant
            n == pat@.len(),
            t@.len() == n,
            i <= n,
            forall|k: int| 0 <= k < i ==> t@[k] == pat@[k],
        decreases n - i,
    {
        if t[i] != pat.get_char(i) {
            return false;
        }
        i = i + 1;
    }
    proof {
        assert(t@ =~= pat@);
    }
    true
}

/// ASCII-lowercase one character.
pub fn lower_char(c: char) -> (r: char)
    ensures
        r == spec_lower(c),
{
    let u = c as u32;
    if 65 <= u && u <= 90 {
        ((c as u8) + 32) as char
    } else {
        c
    }
}

/// ASCII-lowercase a character vector.
pub fn lower_chars(v: &Vec<char>) -> (r: Vec<char>)
    ensures
        r@ == lower_seq(v@),
{
    let mut r: Vec<char> = Vec::new();
    let mut i: usize = 0;
    while i < v.len()
        invariant
            i <= v@.len(),
            r@.len() == i,
            forall|k: int| 0 <= k < i ==> r@[k] == spec_lower(v@[k]),
        decreases v@.len() - i,
    {
        r.push(lower_char(v[i]));
        i = i + 1;
    }
    proof {
        assert(r@ =~= lower_seq(v@));
    }
    r
}

/// Look a single (lowercased, trimmed) token up in the key table.
pub fn key_code_of(t: &Vec<char>) -> (r: Option<KeyCode>)
    ensures
        r == spec_key_code(t@),
{
    if t.len() == 1 {
        let c = t[0];
        let u = c as u32;
        if 97 <= u && u <= 122 {
            return Some(KeyCode::Letter(c));
        }
        if 48 <= u && u <= 57 {
            return Some(KeyCode::Digit(c));
        }
    }
    if t.len() == 2 && t[0] == 'f' {
        let u = t[1] as u32;
        if 49 <= u && u <= 57 {
            return Some(KeyCode::Function((u - 48) as u8));
        }
    }
    if t.len() == 3 && t[0] == 'f' && t[1] == '1' {
        let u = t[2] as u32;
        if 48 <= u && u <= 50 {
            return Some(KeyCode::Function((10 + u - 48) as u8));
        }
    }
    if part_eq(t, "space") {
        Some(KeyCode::Space)
    } else if part_eq(t, "enter") || part_eq(t, "return") {
        Some(KeyCode::Enter)
    } else if part_eq(t, "tab") {
        Some(KeyCode::Tab)
    } else if part_eq(t, "escape") || part_eq(t, "esc") {
        Some(KeyCode::Escape)
    } else if part_eq(t, "backspace") {
        Some(KeyCode::Backspace)
    } else if part_eq(t, "delete") {
        Some(KeyCode::Delete)
    } else if part_eq(t, "insert") {
        Some(KeyCode::Insert)
    } else if part_eq(t, "home") {
        Some(KeyCode::Home)
    } else if part_eq(t, "end") {
        Some(KeyCode::End)
    } else if part_eq(t, "pageup") {
        Some(KeyCode::PageUp)
    } else if part_eq(t, "pagedown") {
        Some(KeyCode::PageDown)
    } else if part_eq(t, "up") || part_eq(t, "arrowup") {
        Some(KeyCode::ArrowUp)
    } else if part_eq(t, "down") || part_eq(t, "arrowdown") {
        Some(KeyCode::ArrowDown)
    } else if part_eq(t, "left") || part_eq(t, "arrowleft") {
        Some(KeyCode::ArrowLeft)
    } else if part_eq(t, "right") || part_eq(t, "arrowright") {
        Some(KeyCode::ArrowRight)
    } else {
        None
    }
}

/// Whether `c` counts as trimmable whitespace.
pub open spec fn is_space_char(c: char) -> bool {
    c == ' ' || c == '\t' || c == '\n' || c == '\r'
}

/// Drop leading whitespace.
pub open spec fn trim_front(s: Seq<char>) -> Seq<char>
    decreases s.len(),
{
    if s.len() > 0 && is_space_char(s[0]) {
        trim_front(s.drop_first())
    } else {
        s
    }
}

/// Drop trailing whitespace.
pub open spec fn trim_back(s: Seq<char>) -> Seq<char>
    decreases s.len(),
{
    if s.len() > 0 && is_space_char(s.last()) {
        trim_back(s.drop_last())
    } else {
        s
    }
}

/// Drop leading and trailing whitespace.
pub open spec fn trim_seq(s: Seq<char>) -> Seq<char> {
    trim_back(trim_front(s))
}

/// Index of the first `+` in `s`, or `-1` if there is none.
pub open spec fn find_plus(s: Seq<char>) -> int
    decreases s.len(),
{
    if s.len() == 0 {
        -1
    } else if s[0] == '+' {
        0
    } else if find_plus(s.drop_first()) == -1 {
        -1
    } else {
        find_plus(s.drop_first()) + 1
    }
}

proof fn lemma_find_plus_bounds(s: Seq<char>)
    ensures
        -1 <= find_plus(s) < s.len(),
        find_plus(s) >= 0 ==> s[find_plus(s)] == '+',
    decreases s.len(),
{
    if s.len() > 0 && s[0] != '+' {
        lemma_find_plus_bounds(s.drop_first());
    }
}

/// Split `s` at every `+`, keeping empty pieces, as `str::split` does.
pub open spec fn split_plus(s: Seq<char>) -> Seq<Seq<char>>
    decreases s.len(),
    via split_plus_decreases
{
    if find_plus(s) == -1 {
        seq![s]
    } else {
        seq![s.subrange(0, find_plus(s))] + split_plus(
            s.subrange(find_plus(s) + 1, s.len() as int),
        )
    }
}

#[via_fn]
proof fn split_plus_decreases(s: Seq<char>) {
    lemma_find_plus_bounds(s);
}

/// The views of a sequence of character vectors.
pub open spec fn parts_views(s: Seq<Vec<char>>) -> Seq<Seq<char>> {
    s.map_values(|v: Vec<char>| v@)
}

/// The `+`-separated parts of a token, lowercased and trimmed.
pub open spec fn spec_parts(token: Seq<char>) -> Seq<Seq<char>> {
    split_plus(lower_seq(token)).map_values(|p: Seq<char>| trim_seq(p))
}

/// Whether a part names the control modifier.
pub open spec fn is_ctrl_token(p: Seq<char>) -> bool {
    p == "ctrl"@ || p == "control"@
}

/// Whether a part names the alt modifier.
pub open spec fn is_alt_token(p: Seq<char>) -> bool {
    p == "alt"@
}

/// Whether a part names the shift modifier.
pub open spec fn is_shift_token(p: Seq<char>) -> bool {
    p == "shift"@
}

/// Whether a part names the meta (super) modifier.
pub open spec fn is_meta_token(p: Seq<char>) -> bool {
    p == "meta"@ || p == "cmd"@ || p == "super"@
}

/// Whether a part names any modifier.
pub open spec fn spec_is_modifier(p: Seq<char>) -> bool {
    is_ctrl_token(p) || is_alt_token(p) || is_shift_token(p) || is_meta_token(p)
}

/// The non-modifier parts of a token: the candidate keys.
pub open spec fn key_parts(token: Seq<char>) -> Seq<Seq<char>> {
    spec_parts(token).filter(|p: Seq<char>| !spec_is_modifier(p))
}

/// The modifier set of a token: a flag is set exactly when some part
/// names it, so the set does not depend on the order of the parts.
pub open spec fn spec_modifiers(token: Seq<char>) -> Modifiers {
    Modifiers {
        control: exists|i: int|
            0 <= i < spec_parts(token).len() && is_ctrl_token(#[trigger] spec_parts(token)[i]),
        alt: exists|i: int|
            0 <= i < spec_parts(token).len() && is_alt_token(#[trigger] spec_parts(token)[i]),
        shift: exists|i: int|
            0 <= i < spec_parts(token).len() && is_shift_token(#[trigger] spec_parts(token)[i]),
        meta: exists|i: int|
            0 <= i < spec_parts(token).len() && is_meta_token(#[trigger] spec_parts(token)[i]),
    }
}

/// Whether `c` counts as trimmable whitespace.
pub fn is_space(c: char) -> (r: bool)
    ensures
        r == is_space_char(c),
{
    c == ' ' || c == '\t' || c == '\n' || c == '\r'
}

proof fn lemma_trim_front_eq(s: Seq<char>, lo: int)
    requires
        0 <= lo <= s.len(),
        forall|k: int| 0 <= k < lo ==> is_space_char(s[k]),
        lo < s.len() ==> !is_space_char(s[lo]),
    ensures
        trim_front(s) == s.subrange(lo, s.len() as int),
    decreases lo,
{
    if lo == 0 {
        assert(trim_front(s) =~= s.subrange(0, s.len() as int));
    } else {
        lemma_trim_front_eq(s.drop_first(), lo - 1);
        assert(s.drop_first().subrange(lo - 1, s.drop_first().len() as int) =~= s.subrange(
            lo,
            s.len() as int,
        ));
    }
}

proof fn lemma_trim_back_eq(s: Seq<char>, hi: int)
    requires
        0 <= hi <= s.len(),
        forall|k: int| hi <= k < s.len() ==> is_space_char(s[k]),
        hi > 0 ==> !is_space_char(s[hi - 1]),
    ensures
        trim_back(s) == s.subrange(0, hi),
    decreases s.len() - hi,
{
    if hi == s.len() {
        assert(trim_back(s) =~= s.subrange(0, hi));
    } else {
        assert(is_space_char(s.last()));
        lemma_trim_back_eq(s.drop_last(), hi);
        assert(s.drop_last().subrange(0, hi) =~= s.subrange(0, hi));
    }
}

/// Trim whitespace from both ends of a character vector.
pub fn trim_chars(v: &Vec<char>) -> (r: Vec<char>)
    ensures
        r@ == trim_seq(v@),
{
    let n = v.len();
    let mut lo: usize = 0;
    while lo < n && is_space(v[lo])
        invariant
            n == v@.len(),
            lo <= n,
            forall|k: int| 0 <= k < lo ==> is_space_char(v@[k]),
        decreases n - lo,
    {
        lo = lo + 1;
    }
    let mut hi: usize = n;
    while hi > lo && is_space(v[hi - 1])
        invariant
            n == v@.len(),
            lo <= hi <= n,
            forall|k: int| hi <= k < n ==> is_space_char(v@[k]),
        decreases hi,
    {
        hi = hi - 1;
    }
    let mut r: Vec<char> = Vec::new();
    let mut j: usize = lo;
    while j < hi
        invariant
            n == v@.len(),
            lo <= j <= hi <= n,
            r@ == v@.subrange(lo as int, j as int),
        decreases hi - j,
    {
        r.push(v[j]);
        j = j + 1;
        proof {
            assert(r@ =~= v@.subrange(lo as int, j as int));
        }
    }
    proof {
        lemma_trim_front_eq(v@, lo as int);
        let t = v@.subrange(lo as int, n as int);
        lemma_trim_back_eq(t, hi - lo);
        assert(t.subrange(0, hi - lo) =~= v@.subrange(lo as int, hi as int));
    }
    r
}

proof fn lemma_find_plus_at(s: Seq<char>, j: int)
    requires
        0 <= j < s.len(),
        s[j] == '+',
        forall|k: int| 0 <= k < j ==> s[k] != '+',
    ensures
        find_plus(s) == j,
    decreases j,
{
    if j > 0 {
        lemma_find_plus_at(s.drop_first(), j - 1);
    }
}

proof fn lemma_find_plus_none(s: Seq<char>)
    requires
        forall|k: int| 0 <= k < s.len() ==> s[k] != '+',
    ensures
        find_plus(s) == -1,
    decreases s.len(),
{
    if s.len() > 0 {
        lemma_find_plus_none(s.drop_first());
    }
}

/// Split a character vector at every `+`, keeping empty pieces.
pub fn split_plus_chars(v: &Vec<char>) -> (r: Vec<Vec<char>>)
    ensures
        parts_views(r@) == split_plus(v@),
{
    let n = v.len();
    let mut parts: Vec<Vec<char>> = Vec::new();
    let mut cur: Vec<char> = Vec::new();
    let ghost mut start: int = 0;
    let mut i: usize = 0;
    proof {
        assert(v@.subrange(0, n as int) =~= v@);
        assert(parts_views(parts@) + split_plus(v@) =~= split_plus(v@));
    }
    while i < n
        invariant
            n == v@.len(),
            0 <= start <= i <= n,
            cur@ == v@.subrange(start, i as int),
            forall|k: int| start <= k < i ==> v@[k] != '+',
            split_plus(v@) == parts_views(parts@) + split_plus(v@.subrange(start, n as int)),
        decreases n - i,
    {
        if v[i] == '+' {
            proof {
                let tail = v@.subrange(start, n as int);
                lemma_find_plus_at(tail, i - start);
                assert(tail.subrange(0, i - start) =~= cur@);
                assert(tail.subrange(i - start + 1, tail.len() as int) =~= v@.subrange(
                    i + 1,
                    n as int,
                ));
                assert(parts_views(parts@.push(cur)) =~= parts_views(parts@).push(cur@));
                assert(parts_views(parts@).push(cur@) + split_plus(v@.subrange(i + 1, n as int))
                    =~= parts_views(parts@) + (seq![cur@] + split_plus(
                    v@.subrange(i + 1, n as int),
                )));
            }
            parts.push(cur);
            cur = Vec::new();
            proof {
                start = i + 1;
            }
            i = i + 1;
            proof {
                assert(cur@ =~= v@.subrange(start, i as int));
            }
        } else {
            cur.push(v[i]);
            i = i + 1;
            proof {
                assert(cur@ =~= v@.subrange(start, i as int));
            }
        }
    }
    proof {
        let tail = v@.subrange(start, n as int);
        lemma_find_plus_none(tail);
        assert(tail =~= cur@);
        assert(parts_views(parts@.push(cur)) =~= parts_views(parts@) + seq![cur@]);
    }
    parts.push(cur);
    parts
}

/// A token taken apart: its modifier set, how many non-modifier parts
/// it has, and where the first one sits.
pub(crate) struct ClassifiedToken {
    pub(crate) parts: Vec<Vec<char>>,
    pub(crate) mods: Modifiers,
    pub(crate) key_count: usize,
    pub(crate) key_index: usize,
}

/// Lowercase, split and trim a token, then classify each part.
pub(crate) fn classify(token: &str) -> (c: ClassifiedToken)
    ensures
        parts_views(c.parts@) == spec_parts(token@),
        c.mods == spec_modifiers(token@),
        c.key_count == key_parts(token@).len(),
        c.key_count > 0 ==> c.key_index < c.parts@.len() && c.parts@[c.key_index as int]@
            == key_parts(token@)[0],
{
    broadcast use Seq::lemma_filter_push, Seq::lemma_take_succ_push, Seq::lemma_take_len;
    broadcast use vstd::string::group_string_axioms;

    proof {
        reveal_strlit("ctrl");
        reveal_strlit("control");
        reveal_strlit("alt");
        reveal_strlit("shift");
        reveal_strlit("meta");
        reveal_strlit("cmd");
        reveal_strlit("super");
    }
    let chars = chars_of(token);
    let lowered = lower_chars(&chars);
    let raw_parts = split_plus_chars(&lowered);
    let mut parts: Vec<Vec<char>> = Vec::new();
    let mut i: usize = 0;
    let n = raw_parts.len();
    while i < n
        invariant
            n == raw_parts@.len(),
            i <= n,
            parts@.len() == i,
            forall|k: int| 0 <= k < i ==> parts@[k]@ == trim_seq(#[trigger] raw_parts@[k]@),
        decreases n - i,
    {
        let t = trim_chars(&raw_parts[i]);
        parts.push(t);
        i = i + 1;
    }
    proof {
        assert(parts_views(parts@) =~= spec_parts(token@));
    }
    let ghost pv = spec_parts(token@);
    let ghost nonmod = |p: Seq<char>| !spec_is_modifier(p);
    let mut mods = Modifiers::none();
    let mut key_count: usize = 0;
    let mut key_index: usize = 0;
    let mut j: usize = 0;
    let m = parts.len();
    while j < m
        invariant
            m == parts@.len(),
            j <= m,
            parts_views(parts@) == pv,
            nonmod == (|p: Seq<char>| !spec_is_modifier(p)),
            mods.control == exists|k: int| 0 <= k < j && is_ctrl_token(#[trigger] pv[k]),
            mods.alt == exists|k: int| 0 <= k < j && is_alt_token(#[trigger] pv[k]),
            mods.shift == exists|k: int| 0 <= k < j && is_shift_token(#[trigger] pv[k]),
            mods.meta == exists|k: int| 0 <= k < j && is_meta_token(#[trigger] pv[k]),
            key_count == pv.take(j as int).filter(nonmod).len(),
            key_count > 0 ==> key_index < j && pv.take(j as int).filter(nonmod)[0] == pv[key_index as int],
        decreases m - j,
    {
        let p = &parts[j];
        proof {
            reveal_strlit("ctrl");
            reveal_strlit("control");
            reveal_strlit("alt");
            reveal_strlit("shift");
            reveal_strlit("meta");
            reveal_strlit("cmd");
            reveal_strlit("super");
            assert("ctrl"@.len() == 4 && "control"@.len() == 7 && "alt"@.len() == 3 && "shift"@.len()
                == 5 && "meta"@.len() == 4 && "cmd"@.len() == 3 && "super"@.len() == 5);
            assert("ctrl"@[0] == 'c' && "meta"@[0] == 'm' && "alt"@[0] == 'a' && "cmd"@[0] == 'c'
                && "shift"@[1] == 'h' && "super"@[1] == 'u');
            assert(pv.take(j + 1) =~= pv.take(j as int).push(pv[j as int]));
            pv.take(j as int).lemma_filter_push(pv[j as int], nonmod);
            assert(pv.take(j + 1).filter(nonmod) == pv.take(j as int).push(
                pv[j as int],
            ).filter(nonmod));
            assert(p@ == pv[j as int]);
        }
        if part_eq(p, "ctrl") || part_eq(p, "control") {
            mods.control = true;
            proof {
                assert(is_ctrl_token(pv[j as int]));
                assert(!is_alt_token(pv[j as int]));
                assert(!is_shift_token(pv[j as int]));
                assert(!is_meta_token(pv[j as int]));
            }
        } else if part_eq(p, "alt") {
            mods.alt = true;
            proof {
                assert(is_alt_token(pv[j as int]));
                assert(!is_ctrl_token(pv[j as int]));
                assert(!is_shift_token(pv[j as int]));
                assert(!is_meta_token(pv[j as int]));
            }
        } else if part_eq(p, "shift") {
            mods.shift = true;
            proof {
                assert(is_shift_token(pv[j as int]));
                assert(!is_ctrl_token(pv[j as int]));
                assert(!is_alt_token(pv[j as int]));
                assert(!is_meta_token(pv[j as int]));
            }
        } else if part_eq(p, "meta") || part_eq(p, "cmd") || part_eq(p, "super") {
            mods.meta = true;
            proof {
                assert(is_meta_token(pv[j as int]));
                assert(!is_ctrl_token(pv[j as int]));
                assert(!is_alt_token(pv[j as int]));
                assert(!is_shift_token(pv[j as int]));
            }
        } else {
            proof {
                assert(!spec_is_modifier(pv[j as int]));
            }
            if key_count == 0 {
                key_index = j;
            }
            key_count = key_count + 1;
        }
        j = j + 1;
    }
    proof {
        assert(pv.take(m as int) =~= pv);
    }
    ClassifiedToken { parts, mods, key_count, key_index }
}

/// Turn a character vector into a `String`.
///
/// Relies on `String`'s `FromIterator` implementation: collecting
/// characters yields the string holding exactly those characters.
#[verifier::external_body]
pub(crate) fn string_from_chars(v: &Vec<char>) -> (s: String)
    ensures
        s@ == v@,
{
    v.iter().collect()
}

/// Resolve a key-identifier token: lowercase and split it on `+`, trim
/// the parts, accumulate modifiers, and require exactly one
/// non-modifier part that is in the key table.
///
/// Errors are pinned exactly: no non-modifier part gives
/// `InvalidKeyCombination` ("no key specified"), more than one gives
/// `InvalidKeyCombination` ("multiple keys specified"), and a single
/// unknown key gives `InvalidKey` ("unknown key").
pub fn parse_hotkey(token: &str) -> (r: Result<KeyCombination, PksError>)
    ensures
        ({
            let kp = key_parts(token@);
            &&& kp.len() == 0 ==> (r matches Err(e) && e matches PksError::InvalidKeyCombination {
                combo,
                reason,
            } && combo@ == token@ && reason@ == "no key specified"@)
            &&& kp.len() > 1 ==> (r matches Err(e) && e matches PksError::InvalidKeyCombination {
                combo,
                reason,
            } && combo@ == token@ && reason@ == "multiple keys specified"@)
            &&& (kp.len() == 1 && spec_key_code(kp[0]) is None) ==> (r matches Err(e)
                && e matches PksError::InvalidKey { key, reason } && key@ == kp[0] && reason@
                == "unknown key"@)
            &&& kp.len() == 1 ==> (spec_key_code(kp[0]) matches Some(c) ==> r == Ok::<
                KeyCombination,
                PksError,
            >(KeyCombination { modifiers: spec_modifiers(token@), code: c }))
        }),
{
    let c = classify(token);
    if c.key_count == 0 {
        Err(PksError::invalid_key_combination(token, "no key specified"))
    } else if c.key_count > 1 {
        Err(PksError::invalid_key_combination(token, "multiple keys specified"))
    } else {
        let part = &c.parts[c.key_index];
        match key_code_of(part) {
            Some(code) => Ok(KeyCombination { modifiers: c.mods, code }),
            None => {
                let key = string_from_chars(part);
                Err(PksError::InvalidKey { key, reason: "unknown key".to_owned() })
            },
        }
    }
}

/// Resolve a single key token against the supported key table.
///
/// The token is expected already lowercased and trimmed; combination
/// handling and normalization live in `parse_hotkey`.
pub fn parse_key_code(key: &str) -> (r: Result<KeyCode, PksError>)
    ensures
        spec_key_code(key@) matches Some(c) ==> r == Ok::<KeyCode, PksError>(c),
        spec_key_code(key@) is None ==> (r matches Err(e) && e matches PksError::InvalidKey {
            key: k,
            reason: m,
        } && k@ == key@ && m@ == "unknown key"@),
{
    let chars = chars_of(key);
    match key_code_of(&chars) {
        Some(c) => Ok(c),
        None => Err(PksError::invalid_key(key, "unknown key")),
    }
}

proof fn lemma_filter_to_multiset<A>(s: Seq<A>, pred: spec_fn(A) -> bool)
    ensures
        s.filter(pred).to_multiset() == s.to_multiset().filter(pred),
    decreases s.len(),
{
    broadcast use vstd::seq_lib::group_to_multiset_ensures;
    broadcast use vstd::multiset::group_multiset_axioms;

    reveal(Seq::filter);
    if s.len() == 0 {
        assert(s.filter(pred) =~= s);
        assert forall|v: A| s.to_multiset().count(v) == 0 by {
            assert(!s.contains(v));
        }
        assert(s.filter(pred).to_multiset() =~= s.to_multiset().filter(pred));
    } else {
        let bl = s.drop_last();
        let x = s.last();
        lemma_filter_to_multiset(bl, pred);
        assert(s =~= bl.push(x));
        bl.lemma_filter_push(x, pred);
        assert(bl.push(x).to_multiset() == bl.to_multiset().insert(x));
        if pred(x) {
            assert(s.filter(pred).to_multiset() == bl.filter(pred).to_multiset().insert(x));
            assert(bl.to_multiset().filter(pred).insert(x) =~= bl.to_multiset().insert(x).filter(
                pred,
            ));
        } else {
            assert(s.filter(pred).to_multiset() == bl.filter(pred).to_multiset());
            assert(bl.to_multiset().filter(pred) =~= bl.to_multiset().insert(x).filter(pred));
        }
    }
}

proof fn lemma_any_transfers(s1: Seq<Seq<char>>, s2: Seq<Seq<char>>, pred: spec_fn(Seq<char>) -> bool)
    requires
        s1.to_multiset() == s2.to_multiset(),
    ensures
        (exists|i: int| 0 <= i < s1.len() && pred(#[trigger] s1[i])) == (exists|i: int|
            0 <= i < s2.len() && pred(#[trigger] s2[i])),
{
    broadcast use vstd::seq_lib::group_to_multiset_ensures;

    if exists|i: int| 0 <= i < s1.len() && pred(#[trigger] s1[i]) {
        let i = choose|i: int| 0 <= i < s1.len() && pred(#[trigger] s1[i]);
        let x = s1[i];
        assert(s1.contains(x));
        assert(s2.to_multiset().count(x) > 0);
        assert(s2.contains(x));
        let j = choose|j: int| 0 <= j < s2.len() && s2[j] == x;
        assert(pred(s2[j]));
    }
    if exists|i: int| 0 <= i < s2.len() && pred(#[trigger] s2[i]) {
        let i = choose|i: int| 0 <= i < s2.len() && pred(#[trigger] s2[i]);
        let x = s2[i];
        assert(s2.contains(x));
        assert(s1.to_multiset().count(x) > 0);
        assert(s1.contains(x));
        let j = choose|j: int| 0 <= j < s1.len() && s1[j] == x;
        assert(pred(s1[j]));
    }
}

/// The modifier set of a combination does not depend on the order of
/// its parts: two tokens whose lowercased, trimmed parts are the same
/// multiset resolve to the same modifier set, have the same number of
/// candidate key parts, and — when there is exactly one — the same
/// candidate key.  Together with `parse_hotkey`'s contract this shows
/// that, for example, reordering the modifiers of a valid combination
/// leaves the resolved code and modifier set unchanged.
pub proof fn lemma_modifier_order_independent(t1: Seq<char>, t2: Seq<char>)
    requires
        spec_parts(t1).to_multiset() == spec_parts(t2).to_multiset(),
    ensures
        spec_modifiers(t1) == spec_modifiers(t2),
        key_parts(t1).len() == key_parts(t2).len(),
        key_parts(t1).len() == 1 ==> key_parts(t1)[0] == key_parts(t2)[0],
{
    broadcast use vstd::seq_lib::group_to_multiset_ensures;

    let p1 = spec_parts(t1);
    let p2 = spec_parts(t2);
    lemma_any_transfers(p1, p2, |p: Seq<char>| is_ctrl_token(p));
    lemma_any_transfers(p1, p2, |p: Seq<char>| is_alt_token(p));
    lemma_any_transfers(p1, p2, |p: Seq<char>| is_shift_token(p));
    lemma_any_transfers(p1, p2, |p: Seq<char>| is_meta_token(p));
    let nonmod = |p: Seq<char>| !spec_is_modifier(p);
    lemma_filter_to_multiset(p1, nonmod);
    lemma_filter_to_multiset(p2, nonmod);
    assert(key_parts(t1).to_multiset() == key_parts(t2).to_multiset());
    assert(key_parts(t1).to_multiset().len() == key_parts(t2).to_multiset().len());
    assert(key_parts(t1).len() == key_parts(t2).len());
    if key_parts(t1).len() == 1 {
        let k1 = key_parts(t1)[0];
        assert(key_parts(t1).contains(k1));
        assert(key_parts(t2).to_multiset().count(k1) > 0);
        assert(key_parts(t2).contains(k1));
        let j = choose|j: int| 0 <= j < key_parts(t2).len() && key_parts(t2)[j] == k1;
        assert(j == 0);
    }
}

/// No modifier token is itself in the key table: classifying a part
/// as a modifier never shadows a supported key.
pub proof fn lemma_modifier_is_no_key(p: Seq<char>)
    requires
        spec_is_modifier(p),
    ensures
        spec_key_code(p) is None,
{
    reveal_strlit("ctrl");
    reveal_strlit("control");
    reveal_strlit("alt");
    reveal_strlit("shift");
    reveal_strlit("meta");
    reveal_strlit("cmd");
    reveal_strlit("super");
    reveal_strlit("space");
    reveal_strlit("enter");
    reveal_strlit("return");
    reveal_strlit("tab");
    reveal_strlit("escape");
    reveal_strlit("esc");
    reveal_strlit("backspace");
    reveal_strlit("delete");
    reveal_strlit("insert");
    reveal_strlit("home");
    reveal_strlit("end");
    reveal_strlit("pageup");
    reveal_strlit("pagedown");
    reveal_strlit("up");
    reveal_strlit("arrowup");
    reveal_strlit("down");
    reveal_strlit("arrowdown");
    reveal_strlit("left");
    reveal_strlit("arrowleft");
    reveal_strlit("right");
    reveal_strlit("arrowright");
    assert("ctrl"@.len() == 4 && "control"@.len() == 7 && "alt"@.len() == 3 && "shift"@.len() == 5
        && "meta"@.len() == 4 && "cmd"@.len() == 3 && "super"@.len() == 5);
    assert("space"@.len() == 5 && "enter"@.len() == 5 && "return"@.len() == 6 && "tab"@.len() == 3
        && "escape"@.len() == 6 && "esc"@.len() == 3 && "backspace"@.len() == 9 && "delete"@.len()
        == 6 && "insert"@.len() == 6 && "home"@.len() == 4 && "end"@.len() == 3 && "pageup"@.len()
        == 6 && "pagedown"@.len() == 8);
    assert("up"@.len() == 2 && "arrowup"@.len() == 7 && "down"@.len() == 4 && "arrowdown"@.len()
        == 9 && "left"@.len() == 4 && "arrowleft"@.len() == 9 && "right"@.len() == 5
        && "arrowright"@.len() == 10);
    assert("ctrl"@[0] == 'c' && "control"@[0] == 'c' && "alt"@[0] == 'a' && "cmd"@[0] == 'c'
        && "meta"@[0] == 'm' && "shift"@[0] == 's' && "shift"@[1] == 'h' && "super"@[0] == 's'
        && "super"@[1] == 'u');
    assert("home"@[0] == 'h' && "down"@[0] == 'd' && "left"@[0] == 'l' && "tab"@[0] == 't'
        && "esc"@[0] == 'e' && "end"@[0] == 'e' && "space"@[0] == 's' && "space"@[1] == 'p'
        && "enter"@[0] == 'e' && "right"@[0] == 'r' && "arrowup"@[0] == 'a');
}

proof fn lemma_filter_exactly_one<A>(s: Seq<A>, pred: spec_fn(A) -> bool, j: int)
    requires
        0 <= j < s.len(),
        pred(s[j]),
        forall|k: int| 0 <= k < s.len() && k != j ==> !pred(#[trigger] s[k]),
    ensures
        s.filter(pred) == seq![s[j]],
    decreases s.len(),
{
    reveal(Seq::filter);
    let bl = s.drop_last();
    if j == s.len() - 1 {
        assert forall|k: int| 0 <= k < bl.len() implies !pred(#[trigger] bl[k]) by {
            assert(bl[k] == s[k]);
        }
        lemma_filter_none(bl, pred);
        assert(s.filter(pred) =~= seq![s[j]]);
    } else {
        lemma_filter_exactly_one(bl, pred, j);
        assert(!pred(s.last()));
        assert(bl[j] == s[j]);
        assert(s.filter(pred) =~= seq![s[j]]);
    }
}

proof fn lemma_filter_none<A>(s: Seq<A>, pred: spec_fn(A) -> bool)
    requires
        forall|k: int| 0 <= k < s.len() ==> !pred(#[trigger] s[k]),
    ensures
        s.filter(pred) == Seq::<A>::empty(),
    decreases s.len(),
{
    reveal(Seq::filter);
    if s.len() > 0 {
        let bl = s.drop_last();
        assert forall|k: int| 0 <= k < bl.len() implies !pred(#[trigger] bl[k]) by {
            assert(bl[k] == s[k]);
        }
        lemma_filter_none(bl, pred);
    }
}

/// Resolution is total on the supported table: a token whose parts
/// are any modifiers plus exactly one key from the table has exactly
/// that key as its single candidate, so by `parse_hotkey`'s contract
/// it resolves to that key, never to an error.
pub proof fn lemma_supported_token_resolves(t: Seq<char>, j: int)
    requires
        0 <= j < spec_parts(t).len(),
        spec_key_code(spec_parts(t)[j]) is Some,
        forall|k: int|
            0 <= k < spec_parts(t).len() && k != j ==> spec_is_modifier(
                #[trigger] spec_parts(t)[k],
            ),
    ensures
        key_parts(t).len() == 1,
        key_parts(t)[0] == spec_parts(t)[j],
        spec_key_code(key_parts(t)[0]) is Some,
{
    let pv = spec_parts(t);
    let nonmod = |p: Seq<char>| !spec_is_modifier(p);
    if spec_is_modifier(pv[j]) {
        lemma_modifier_is_no_key(pv[j]);
    }
    assert(nonmod(pv[j]));
    assert forall|k: int| 0 <= k < pv.len() && k != j implies !nonmod(#[trigger] pv[k]) by {}
    lemma_filter_exactly_one(pv, nonmod, j);
}

/// Resolution is a pure function of the token text: equal tokens take
/// each classification step — parts, candidate keys, modifier set —
/// to equal values, so with `parse_hotkey`'s contract the same token
/// always resolves to the same outcome, and resolving it again cannot
/// change the result.
pub proof fn lemma_resolve_deterministic(t1: Seq<char>, t2: Seq<char>)
    requires
        t1 == t2,
    ensures
        spec_parts(t1) == spec_parts(t2),
        key_parts(t1) == key_parts(t2),
        spec_modifiers(t1) == spec_modifiers(t2),
{
}

} // verus!
