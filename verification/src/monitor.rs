//! Liveness evaluation for the runtime monitor.
//!
//! The monitor snapshots the live instances, probes each process outside
//! the state lock, and turns every probe into an outcome that is then applied
//! to the state. Probing is I/O; what a probe result means is decided here.

use vstd::prelude::*;

verus! {

/// Liveness probe interval, in milliseconds.
pub const LIVENESS_PROBE_INTERVAL_MS: u64 = 5000;

/// How long, in milliseconds, a process may fail its liveness probes before
/// it counts as exited.
pub const LIVENESS_TIMEOUT_MS: u64 = 300000;

/// Consecutive failed probes after which a retrying instance counts as exited
/// (the liveness timeout divided by the probe interval, rounded up).
pub const ALIVE_EXIT_THRESHOLD: u32 = 60;

/// Snapshot of a single live instance for evaluation.
#[derive(Debug)]
pub struct LiveSnapshot {
    pub id: String,
    pub port: u16,
    pub pid: u32,
    pub executable_path: String,
    pub dashboard_enabled: bool,
    pub alive_failure_count: u32,
    /// Monotonic time (milliseconds) before which no probe is made.
    pub next_alive_check_at: Option<u64>,
}

/// Result of one probe: failure count, next probe time and a replacement pid.
pub type ProbeResult = (u32, Option<u64>, Option<u32>);

/// Outcome of evaluating a single instance during monitoring.
#[derive(Debug)]
pub enum MonitorOutcome {
    /// The process is dead; its slot should be removed.
    Dead { id: String },
    /// The process is alive; its fields are updated.
    Alive {
        id: String,
        alive_failure_count: u32,
        next_alive_check_at: Option<u64>,
        new_pid: Option<u32>,
    },
}

/// The retry window of `entry` has not elapsed yet at `now`.
pub open spec fn in_backoff(entry: LiveSnapshot, now: u64) -> bool {
    entry.dashboard_enabled && (entry.next_alive_check_at matches Some(n) && now < n)
}

/// What the evaluation of one instance yields: `None` for a dead process,
/// otherwise the new failure count, next probe time and replacement pid.
pub open spec fn liveness_spec(entry: LiveSnapshot, now: u64, probe: Option<ProbeResult>) -> Option<
    ProbeResult,
> {
    if in_backoff(entry, now) {
        Some((entry.alive_failure_count, entry.next_alive_check_at, None))
    } else {
        match probe {
            None => None,
            Some((c, next, np)) => if !entry.dashboard_enabled && next is Some {
                None
            } else {
                Some((c, next, np))
            },
        }
    }
}

pub open spec fn outcome_spec(entry: LiveSnapshot, now: u64, probe: Option<ProbeResult>) -> MonitorOutcome {
    match liveness_spec(entry, now, probe) {
        None => MonitorOutcome::Dead { id: entry.id },
        Some((c, next, np)) => MonitorOutcome::Alive {
            id: entry.id,
            alive_failure_count: c,
            next_alive_check_at: next,
            new_pid: np,
        },
    }
}

/// Whether a probe has to be made for `entry` at `now`; while a retry window
/// is pending the previous counters are kept and no probe is needed.
pub fn probe_due(entry: &LiveSnapshot, now: u64) -> (b: bool)
    ensures
        b == !in_backoff(*entry, now),
{
    if entry.dashboard_enabled {
        if let Some(next_at) = entry.next_alive_check_at {
            if now < next_at {
                return false;
            }
        }
    }
    true
}

/// Probe result where the process check is final (no retries): alive
/// resets the counters, anything else is death.
pub fn probe_result_direct(expected_alive: bool) -> (r: Option<ProbeResult>)
    ensures
        expected_alive ==> r == Some::<ProbeResult>((0u32, None::<u64>, None::<u32>)),
        !expected_alive ==> r is None,
{
    if expected_alive {
        Some((0, None, None))
    } else {
        None
    }
}

/// Probe result with retries: a failed check is tolerated until the
/// failure count reaches [`ALIVE_EXIT_THRESHOLD`]; a different process that
/// now listens on the instance port and runs the expected executable takes
/// over the instance.
pub fn probe_result_with_retry(
    entry: &LiveSnapshot,
    now: u64,
    expected_alive: bool,
    port_pid: Option<u32>,
    port_pid_expected_alive: bool,
) -> (r: Option<ProbeResult>)
    requires
        entry.alive_failure_count < u32::MAX,
        now + LIVENESS_PROBE_INTERVAL_MS <= u64::MAX,
    ensures
        r == retry_spec(*entry, now, expected_alive, port_pid, port_pid_expected_alive),
        expected_alive ==> r == Some::<ProbeResult>((0u32, None::<u64>, None::<u32>)),
        !expected_alive && !(port_pid matches Some(np) && np != entry.pid && port_pid_expected_alive) ==> {
            &&& (r is None <==> entry.alive_failure_count + 1 >= ALIVE_EXIT_THRESHOLD)
            &&& (r matches Some(p) ==> p.0 == entry.alive_failure_count + 1 && p.1 == Some(
                (now + LIVENESS_PROBE_INTERVAL_MS) as u64,
            ) && p.2 is None)
        },
{
    proof {
        lemma_failed_probe_counts_one(*entry, now, port_pid, port_pid_expected_alive);
    }
    if expected_alive {
        return Some((0, None, None));
    }
    if let Some(new_pid) = port_pid {
        if new_pid != entry.pid && port_pid_expected_alive {
            return Some((0, None, Some(new_pid)));
        }
    }
    let new_count = entry.alive_failure_count + 1;
    if new_count >= ALIVE_EXIT_THRESHOLD {
        None
    } else {
        Some((new_count, Some(now + LIVENESS_PROBE_INTERVAL_MS), None))
    }
}

pub open spec fn retry_spec(
    entry: LiveSnapshot,
    now: u64,
    expected_alive: bool,
    port_pid: Option<u32>,
    port_pid_expected_alive: bool,
) -> Option<ProbeResult> {
    if expected_alive {
        Some((0, None, None))
    } else if (port_pid matches Some(np) && np != entry.pid) && port_pid_expected_alive {
        Some((0, None, port_pid))
    } else if entry.alive_failure_count + 1 >= ALIVE_EXIT_THRESHOLD {
        None
    } else {
        Some(
            (
                (entry.alive_failure_count + 1) as u32,
                Some((now + LIVENESS_PROBE_INTERVAL_MS) as u64),
                None,
            ),
        )
    }
}

/// The failed probes tolerated span the whole liveness timeout and no more
/// than one probe interval beyond it: the threshold is the timeout divided
/// by the probe interval, rounded up.
pub proof fn lemma_threshold_spans_timeout()
    ensures
        ALIVE_EXIT_THRESHOLD * LIVENESS_PROBE_INTERVAL_MS >= LIVENESS_TIMEOUT_MS,
        (ALIVE_EXIT_THRESHOLD - 1) * LIVENESS_PROBE_INTERVAL_MS < LIVENESS_TIMEOUT_MS,
{
    assert(60 * 5000 == 300000) by (nonlinear_arith);
    assert(59 * 5000 < 300000) by (nonlinear_arith);
}

/// A failed probe with no replacement process counts exactly one more
/// failure: the instance is given up (`None`) precisely when that count
/// reaches [`ALIVE_EXIT_THRESHOLD`], and otherwise keeps the new count and is
/// probed again one interval later. A live process resets the count, and a
/// replacement process takes over with a reset count.
pub proof fn lemma_failed_probe_counts_one(
    entry: LiveSnapshot,
    now: u64,
    port_pid: Option<u32>,
    port_pid_expected_alive: bool,
)
    requires
        entry.alive_failure_count < u32::MAX,
        now + LIVENESS_PROBE_INTERVAL_MS <= u64::MAX,
    ensures
        retry_spec(entry, now, true, port_pid, port_pid_expected_alive) == Some::<ProbeResult>(
            (0u32, None::<u64>, None::<u32>),
        ),
        (port_pid matches Some(np) && np != entry.pid && port_pid_expected_alive) ==> retry_spec(
            entry,
            now,
            false,
            port_pid,
            port_pid_expected_alive,
        ) == Some::<ProbeResult>((0u32, None::<u64>, port_pid)),
        !(port_pid matches Some(np) && np != entry.pid && port_pid_expected_alive) ==> {
            let r = retry_spec(entry, now, false, port_pid, port_pid_expected_alive);
            &&& (r is None <==> entry.alive_failure_count + 1 >= ALIVE_EXIT_THRESHOLD)
            &&& (r matches Some(p) ==> p.0 == entry.alive_failure_count + 1 && p.1 == Some(
                (now + LIVENESS_PROBE_INTERVAL_MS) as u64,
            ) && p.2 is None)
        },
{
}

/// A dead process that stays dead is given up after exactly
/// [`ALIVE_EXIT_THRESHOLD`] consecutive failed probes: starting from `k`
/// failures (`k` below the threshold), the probe that fails for the
/// `ALIVE_EXIT_THRESHOLD - k`-th time is the first one that yields `None`.
pub proof fn lemma_dead_process_given_up_at_threshold(entry: LiveSnapshot, now: u64, port_pid: Option<u32>)
    requires
        entry.alive_failure_count < ALIVE_EXIT_THRESHOLD,
        now + LIVENESS_PROBE_INTERVAL_MS <= u64::MAX,
        !(port_pid matches Some(np) && np != entry.pid),
    ensures
        retry_spec(entry, now, false, port_pid, false) is None <==> entry.alive_failure_count
            == ALIVE_EXIT_THRESHOLD - 1,
        retry_spec(entry, now, false, port_pid, false) matches Some(p) ==> p.0 > entry.alive_failure_count
            && p.0 < ALIVE_EXIT_THRESHOLD,
{
    lemma_failed_probe_counts_one(entry, now, port_pid, false);
}

/// Evaluate liveness for a single instance from its probe result (ignored
/// while a retry window is pending). `None` means the process is dead.
pub fn evaluate_liveness(entry: &LiveSnapshot, now: u64, probe: Option<ProbeResult>) -> (r: Option<
    MonitorOutcome,
>)
    ensures
        match liveness_spec(*entry, now, probe) {
            None => r is None,
            Some(_) => r == Some(outcome_spec(*entry, now, probe)),
        },
{
    if !probe_due(entry, now) {
        return Some(
            MonitorOutcome::Alive {
                id: entry.id.clone(),
                alive_failure_count: entry.alive_failure_count,
                next_alive_check_at: entry.next_alive_check_at,
                new_pid: None,
            },
        );
    }
    let (alive_failure_count, next_alive_check_at, new_pid) = match probe {
        Some(p) => p,
        None => {
            return None;
        },
    };
    if !entry.dashboard_enabled && next_alive_check_at.is_some() {
        return None;
    }
    Some(
        MonitorOutcome::Alive {
            id: entry.id.clone(),
            alive_failure_count,
            next_alive_check_at,
            new_pid,
        },
    )
}

/// Evaluate every snapshot against its probe result, in order.
pub fn evaluate_instances(entries: &Vec<LiveSnapshot>, now: u64, probes: &Vec<Option<ProbeResult>>) -> (r:
    Vec<MonitorOutcome>)
    requires
        entries.len() == probes.len(),
    ensures
        r.len() == entries.len(),
        forall|j: int| 0 <= j < r.len() ==> r[j] == outcome_spec(entries[j], now, probes[j]),
{
    let mut outcomes: Vec<MonitorOutcome> = Vec::new();
    let mut i: usize = 0;
    while i < entries.len()
        invariant
            i <= entries.len(),
            entries.len() == probes.len(),
            outcomes.len() == i,
            forall|j: int| 0 <= j < i ==> outcomes[j] == outcome_spec(entries[j], now, probes[j]),
        decreases entries.len() - i,
    {
        match evaluate_liveness(&entries[i], now, probes[i]) {
            Some(o) => outcomes.push(o),
            None => outcomes.push(MonitorOutcome::Dead { id: entries[i].id.clone() }),
        }
        i = i + 1;
    }
    outcomes
}

} // verus!
