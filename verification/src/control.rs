//! Decisions of process control: whether a pid still runs the expected
//! executable, which processes may be signalled, and how process-level
//! failures are reported. Querying and signalling processes is I/O done by
//! the caller.

use vstd::prelude::*;
use vstd::string::*;

use crate::error::{detail_payload, AppError, ErrorKind};
use crate::lexical_path::{components_of, eq_segs, path_components, vecs_view};
use crate::text::{
    chars_of, decimal, ends_with, ends_with_vec, find_char, find_char_vec, string_from_chars,
    str_to_string, subvec,
};

verus! {

/// How a process's executable compares with the expected one.
#[derive(Debug, Clone, Copy, PartialEq, Eq, Structural)]
pub enum ExecutablePathMatch {
    Match,
    Mismatch,
    Unknown,
}

/// Paths are equal when their components are (`Path` equality).
pub fn executable_paths_match(expected: &str, actual: &str) -> (b: bool)
    ensures
        b == (path_components(expected@) == path_components(actual@)),
{
    eq_segs(&components_of(&chars_of(expected)), &components_of(&chars_of(actual)))
}

/// Compares the (normalized) expected executable with the one the process
/// runs, when that could be found out.
pub fn check_executable_path_match(expected: &str, actual: Option<&str>) -> (r: ExecutablePathMatch)
    ensures
        r == match actual {
            None => ExecutablePathMatch::Unknown,
            Some(a) => if path_components(expected@) == path_components(a@) {
                ExecutablePathMatch::Match
            } else {
                ExecutablePathMatch::Mismatch
            },
        },
{
    match actual {
        None => ExecutablePathMatch::Unknown,
        Some(a) => if executable_paths_match(expected, a) {
            ExecutablePathMatch::Match
        } else {
            ExecutablePathMatch::Mismatch
        },
    }
}

/// Monitoring: a live pid counts unless it runs another executable (an
/// unknown executable is not taken for a reused pid).
pub fn is_expected_process_alive(alive: bool, path_match: ExecutablePathMatch) -> (b: bool)
    ensures
        b == (alive && path_match != ExecutablePathMatch::Mismatch),
{
    if !alive {
        return false;
    }
    match path_match {
        ExecutablePathMatch::Match => true,
        ExecutablePathMatch::Mismatch => false,
        ExecutablePathMatch::Unknown => true,
    }
}

/// Signalling: only a live pid known to run the expected executable.
pub fn can_signal_expected_process(alive: bool, path_match: ExecutablePathMatch) -> (b: bool)
    ensures
        b == (alive && path_match == ExecutablePathMatch::Match),
{
    if !alive {
        return false;
    }
    match path_match {
        ExecutablePathMatch::Match => true,
        ExecutablePathMatch::Mismatch => false,
        ExecutablePathMatch::Unknown => false,
    }
}

/// Signalling is never allowed where monitoring would see a dead or foreign process.
pub proof fn law_signal_implies_alive(alive: bool, path_match: ExecutablePathMatch)
    ensures
        (alive && path_match == ExecutablePathMatch::Match) ==> (alive && path_match
            != ExecutablePathMatch::Mismatch),
{
}

/// A pid as the platform's signed process id, when it fits.
pub fn to_pid_t(pid: u32) -> (r: Option<i32>)
    ensures
        pid <= i32::MAX ==> r == Some(pid as i32),
        pid > i32::MAX ==> r is None,
{
    if pid <= 2147483647 {
        Some(pid as i32)
    } else {
        None
    }
}

/// The executable a `/proc/<pid>/exe` link names: the text before any NUL,
/// without a trailing ` (deleted)`.
pub open spec fn proc_exe_spec(link: Seq<char>) -> Seq<char> {
    let s = link.take(find_char(link, '\0'));
    if ends_with(s, " (deleted)"@) {
        s.take(s.len() - 10)
    } else {
        s
    }
}

pub fn clean_proc_exe_link(link: &str) -> (r: String)
    ensures
        r@ == proc_exe_spec(link@),
{
    let cs = chars_of(link);
    let n = find_char_vec(&cs, '\0');
    let s = subvec(&cs, 0, n);
    assert(s@ =~= link@.take(find_char(link@, '\0')));
    let suffix = chars_of(" (deleted)");
    proof {
        reveal_strlit(" (deleted)");
    }
    if ends_with_vec(&s, &suffix) {
        let t = subvec(&s, 0, s.len() - 10);
        assert(t@ =~= s@.take(s@.len() - 10));
        string_from_chars(t.as_slice())
    } else {
        string_from_chars(s.as_slice())
    }
}

pub open spec fn pid_in(pids: Seq<u32>, pid: u32) -> bool {
    exists|i: int| 0 <= i < pids.len() && pids[i] == pid
}

/// The targets whose graceful signal did not fail, in order.
pub open spec fn successful_spec(targets: Seq<(u32, String)>, failed: Seq<u32>) -> Seq<(u32, String)>
    decreases targets.len(),
{
    if targets.len() == 0 {
        Seq::empty()
    } else {
        let r = successful_spec(targets.drop_last(), failed);
        if pid_in(failed, targets.last().0) {
            r
        } else {
            r.push(targets.last())
        }
    }
}

pub fn successful_targets(targets: &Vec<(u32, String)>, failed: &Vec<u32>) -> (r: Vec<(u32, String)>)
    ensures
        r@ == successful_spec(targets@, failed@),
{
    let mut out: Vec<(u32, String)> = Vec::new();
    let mut k: usize = 0;
    while k < targets.len()
        invariant
            k <= targets@.len(),
            out@ == successful_spec(targets@.take(k as int), failed@),
        decreases targets.len() - k,
    {
        assert(targets@.take(k as int + 1).drop_last() =~= targets@.take(k as int));
        let pid = targets[k].0;
        let mut found = false;
        let mut j: usize = 0;
        while j < failed.len()
            invariant
                j <= failed@.len(),
                found == exists|q: int| 0 <= q < j && failed@[q] == pid,
            decreases failed.len() - j,
        {
            if failed[j] == pid {
                found = true;
            }
            j = j + 1;
        }
        if !found {
            out.push((pid, targets[k].1.clone()));
            assert(out@.last() == targets@[k as int]);
        }
        k = k + 1;
    }
    assert(targets@.take(k as int) =~= targets@);
    out
}

/// The port handed out by the system, or the failure to find one.
pub fn available_port(picked: Option<u16>) -> (r: Result<u16, AppError>)
    ensures
        match picked {
            Some(p) => r == Ok::<u16, AppError>(p),
            None => r matches Err(e) && e@.0 == ErrorKind::Process && e@.1 == detail_payload(
                "No available port found"@,
            ),
        },
{
    match picked {
        Some(p) => Ok(p),
        None => Err(AppError::process("No available port found")),
    }
}

/// The error for a port that cannot be bound: an occupied port, or an
/// unusable host with the bind error's message.
pub fn port_bind_error(host: &str, port: u16, addr_in_use: bool, detail: &str) -> (e: AppError)
    ensures
        addr_in_use ==> e@.0 == ErrorKind::PortOccupied && e@.1 == seq![
            ("port"@, decimal(port as nat)),
        ],
        !addr_in_use ==> e@.0 == ErrorKind::InvalidHost && e@.1 == detail_payload(
            host@ + ": "@ + detail@,
        ),
{
    if addr_in_use {
        AppError::port_occupied(port)
    } else {
        let mut m = str_to_string(host);
        m.append(": ");
        m.append(detail);
        AppError::invalid_host(m.as_str())
    }
}

} // verus!
