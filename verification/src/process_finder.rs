//! Process discovery.
//!
//! The locator resolves a process-name substring to a process id.
//! Enumerating the machine's processes goes through the `sysinfo`
//! crate behind a narrow trusted boundary that hands back plain
//! `(pid, name)` pairs; what the snapshot holds depends on the
//! machine, so nothing is claimed of it.  The matching itself — an
//! ASCII-case-insensitive substring search, first match wins in the
//! order the locator enumerated — is verified in `find_in_processes`
//! against an exact contract.

use vstd::prelude::*;
use crate::error::PksError;
use crate::keys::{chars_of, lower_chars, lower_seq};

verus! {

#[verifier::external_type_specification]
#[verifier::external_body]
pub struct ExSystem(sysinfo::System);

/// Relies on sysinfo's `System::new`: a fresh snapshot holder with
/// nothing loaded yet.
#[verifier::external_body]
fn new_system() -> sysinfo::System {
    sysinfo::System::new()
}

/// Relies on sysinfo's `System::refresh_processes`: refreshes the
/// snapshot's process list from the operating system, dropping dead
/// processes.  What it finds depends on the machine, so nothing is
/// claimed of the result.
#[verifier::external_body]
fn refresh_processes(sys: &mut sysinfo::System) {
    sys.refresh_processes(sysinfo::ProcessesToUpdate::All, true);
}

/// Relies on sysinfo's `System::processes` (with `Pid::as_u32` and
/// `Process::name` converting each entry): the snapshot's processes
/// as plain `(pid, name)` pairs.  The contents and their order depend
/// on the machine and the map's iteration, so nothing is claimed of
/// them.
#[verifier::external_body]
fn process_list(sys: &sysinfo::System) -> Vec<(u64, String)> {
    sys.processes().iter().map(
        |(pid, process)| (pid.as_u32() as u64, process.name().to_string_lossy().into_owned()),
    ).collect()
}

/// Whether `needle` occurs as a contiguous run inside `hay`.
pub open spec fn contains_sub(hay: Seq<char>, needle: Seq<char>) -> bool {
    exists|i: int|
        0 <= i <= hay.len() - needle.len() && #[trigger] hay.subrange(i, i + needle.len() as int)
            == needle
}

/// Whether a process name matches a query, ignoring ASCII case:
/// the lowercased query occurs inside the lowercased name.
pub open spec fn name_matches(name: Seq<char>, query: Seq<char>) -> bool {
    contains_sub(lower_seq(name), lower_seq(query))
}

/// Substring search over character vectors.
pub fn contains_chars(hay: &Vec<char>, needle: &Vec<char>) -> (r: bool)
    ensures
        r == contains_sub(hay@, needle@),
{
    let hn = hay.len();
    let nn = needle.len();
    if nn > hn {
        return false;
    }
    let mut i: usize = 0;
    while i <= hn - nn
        invariant
            nn <= hn,
            hn == hay@.len(),
            nn == needle@.len(),
            i <= hn - nn + 1,
            forall|ii: int|
                0 <= ii < i ==> #[trigger] hay@.subrange(ii, ii + needle@.len() as int)
                    != needle@,
        decreases hn + 1 - nn - i,
    {
        let mut j: usize = 0;
        while j < nn && hay[i + j] == needle[j]
            invariant
                nn <= hn,
                hn == hay@.len(),
                nn == needle@.len(),
                i + nn <= hn,
                j <= nn,
                forall|k: int| 0 <= k < j ==> hay@[i + k] == needle@[k],
            decreases nn - j,
        {
            j = j + 1;
        }
        if j == nn {
            proof {
                assert(hay@.subrange(i as int, i + needle@.len() as int) =~= needle@);
            }
            return true;
        }
        proof {
            assert(hay@.subrange(i as int, i + needle@.len() as int)[j as int]
                != needle@[j as int]);
            assert(hay@.subrange(i as int, i + needle@.len() as int) != needle@);
        }
        i = i + 1;
    }
    proof {
        assert forall|ii: int| 0 <= ii <= hay@.len() - needle@.len() implies #[trigger] hay@
            .subrange(ii, ii + needle@.len() as int) != needle@ by {
            assert(ii < i);
        }
    }
    false
}

/// The first process in `list` whose name contains `process_name`,
/// ignoring ASCII case: exactly the documented matching rule, with
/// ties broken by the order the locator enumerated.
pub fn find_in_processes(list: &Vec<(u64, String)>, process_name: &str) -> (r: Option<u64>)
    ensures
        r matches Some(pid) ==> exists|i: int|
            0 <= i < list@.len() && name_matches(#[trigger] list@[i].1@, process_name@)
                && list@[i].0 == pid && (forall|k: int|
                0 <= k < i ==> !name_matches(#[trigger] list@[k].1@, process_name@)),
        r is None ==> forall|i: int|
            0 <= i < list@.len() ==> !name_matches(#[trigger] list@[i].1@, process_name@),
{
    let q = lower_chars(&chars_of(process_name));
    let n = list.len();
    let mut i: usize = 0;
    while i < n
        invariant
            n == list@.len(),
            i <= n,
            q@ == lower_seq(process_name@),
            forall|k: int| 0 <= k < i ==> !name_matches(#[trigger] list@[k].1@, process_name@),
        decreases n - i,
    {
        let name = lower_chars(&chars_of(list[i].1.as_str()));
        if contains_chars(&name, &q) {
            return Some(list[i].0);
        }
        i = i + 1;
    }
    None
}

/// Finds processes by name and hands back their ids.
pub struct ProcessFinder {
    system: sysinfo::System,
}

impl ProcessFinder {
    /// Create a finder with a fresh system snapshot holder.
    pub fn new() -> ProcessFinder {
        ProcessFinder { system: new_system() }
    }

    /// Refresh the process snapshot and find the first process whose
    /// name contains `process_name`, ignoring ASCII case.  Which
    /// processes exist is the machine's business; whatever the
    /// snapshot holds, the match follows `find_in_processes`'s rule,
    /// and lookup itself never fails.
    pub fn find_process_window(&mut self, process_name: &str) -> (r: Result<
        Option<u64>,
        PksError,
    >)
        ensures
            r is Ok,
    {
        refresh_processes(&mut self.system);
        let list = process_list(&self.system);
        Ok(find_in_processes(&list, process_name))
    }

    /// Whether some running process's name contains `process_name`,
    /// ignoring ASCII case, by the same rule as `find_process_window`.
    pub fn is_process_running(&mut self, process_name: &str) -> (r: Result<bool, PksError>)
        ensures
            r is Ok,
    {
        refresh_processes(&mut self.system);
        let list = process_list(&self.system);
        Ok(find_in_processes(&list, process_name).is_some())
    }
}

impl Clone for ProcessFinder {
    /// A cloned finder starts from its own fresh snapshot holder.
    fn clone(&self) -> (r: ProcessFinder) {
        ProcessFinder { system: new_system() }
    }
}

impl Default for ProcessFinder {
    /// The same as `ProcessFinder::new`.
    fn default() -> (r: ProcessFinder) {
        ProcessFinder::new()
    }
}

} // verus!
