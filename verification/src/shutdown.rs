//! The decisions of a graceful shutdown of several processes, as a state
//! machine: signal each process, force-kill at once those whose signal
//! failed, then wait for the others until a deadline and force-kill what is
//! left. Signalling, killing, checking liveness, sleeping and the clock are
//! the caller's: it performs each action and reports what happened.

use vstd::prelude::*;

use crate::control::{pid_in, successful_spec, successful_targets};

verus! {

/// Where a shutdown stands.
#[derive(Debug, Clone, Copy)]
pub enum ShutdownStage {
    /// Sending the graceful signal to the target at this index.
    Signalling(usize),
    /// Force-killing the target at this index, whose signal failed.
    KillingFailed(usize),
    /// Checking once whether the signalled processes are all gone.
    FirstCheck,
    /// Waiting for the signalled processes, before the deadline.
    Polling,
    /// Pausing between two checks.
    Sleeping,
    /// The deadline passed: force-killing the signalled process at this
    /// index among those whose signal went through.
    KillingRemaining(usize),
    /// Nothing is left to do.
    Done,
}

/// What the caller does next.
#[derive(Debug, Clone, Copy, PartialEq, Eq)]
pub enum ShutdownAction {
    /// Send the graceful signal to this pid, if it still runs the expected
    /// executable, and report whether sending failed.
    Signal(u32),
    /// Force-kill this pid, if it still runs the expected executable.
    ForceKill(u32),
    /// Report whether every signalled process is gone.
    CheckGone,
    /// Report whether the deadline passed and, if not, whether every
    /// signalled process is gone.
    Poll,
    /// Wait one polling interval.
    Sleep,
    /// The shutdown is over.
    Finish,
}

/// What the caller reports after an action.
#[derive(Debug, Clone, Copy)]
pub enum ShutdownEvent {
    /// The graceful signal was sent or not needed (`true`), or sending it
    /// failed (`false`).
    Signalled(bool),
    /// The force-kill was attempted.
    Killed,
    /// Whether every signalled process is gone.
    Checked(bool),
    /// Whether the deadline passed, and whether every signalled process is gone.
    Polled { deadline_passed: bool, all_gone: bool },
    /// The pause is over.
    Slept,
}

/// The shutdown's targets (pid and expected executable), the pids whose
/// signal failed, the targets whose signal went through, and the stage.
pub struct GracefulShutdown {
    targets: Vec<(u32, String)>,
    failed: Vec<u32>,
    successful: Vec<(u32, String)>,
    stage: ShutdownStage,
}

pub type ShutdownView = (Seq<(u32, String)>, Seq<u32>, Seq<(u32, String)>, ShutdownStage);

impl View for GracefulShutdown {
    type V = ShutdownView;

    closed spec fn view(&self) -> ShutdownView {
        (self.targets@, self.failed@, self.successful@, self.stage)
    }
}

/// The first index from `i` on whose target's signal failed.
pub open spec fn first_failed_from(targets: Seq<(u32, String)>, failed: Seq<u32>, i: int) -> Option<
    int,
>
    decreases targets.len() - i,
{
    if i < 0 || i >= targets.len() {
        None
    } else if pid_in(failed, targets[i].0) {
        Some(i)
    } else {
        first_failed_from(targets, failed, i + 1)
    }
}

/// The stage once the failed targets from index `from` on are killed: the
/// next such target, else done when no signal went through, else the first
/// check.
pub open spec fn after_failed_kills(targets: Seq<(u32, String)>, failed: Seq<u32>, from: int) -> ShutdownStage {
    match first_failed_from(targets, failed, from) {
        Some(j) => ShutdownStage::KillingFailed(j as usize),
        None => if successful_spec(targets, failed).len() == 0 {
            ShutdownStage::Done
        } else {
            ShutdownStage::FirstCheck
        },
    }
}

/// One transition. An event that does not answer the stage's action
/// changes nothing.
pub open spec fn shutdown_step(v: ShutdownView, e: ShutdownEvent) -> ShutdownView {
    let (t, f, s, st) = v;
    match st {
        ShutdownStage::Signalling(i) => match e {
            ShutdownEvent::Signalled(ok) => {
                let f2 = if ok {
                    f
                } else {
                    f.push(t[i as int].0)
                };
                if i + 1 < t.len() {
                    (t, f2, s, ShutdownStage::Signalling((i + 1) as usize))
                } else {
                    (t, f2, successful_spec(t, f2), after_failed_kills(t, f2, 0))
                }
            },
            _ => v,
        },
        ShutdownStage::KillingFailed(i) => match e {
            ShutdownEvent::Killed => (t, f, s, after_failed_kills(t, f, i + 1)),
            _ => v,
        },
        ShutdownStage::FirstCheck => match e {
            ShutdownEvent::Checked(all_gone) => (t, f, s, if all_gone {
                ShutdownStage::Done
            } else {
                ShutdownStage::Polling
            }),
            _ => v,
        },
        ShutdownStage::Polling => match e {
            ShutdownEvent::Polled { deadline_passed, all_gone } => (t, f, s, if deadline_passed {
                if s.len() > 0 {
                    ShutdownStage::KillingRemaining(0)
                } else {
                    ShutdownStage::Done
                }
            } else if all_gone {
                ShutdownStage::Done
            } else {
                ShutdownStage::Sleeping
            }),
            _ => v,
        },
        ShutdownStage::Sleeping => match e {
            ShutdownEvent::Slept => (t, f, s, ShutdownStage::Polling),
            _ => v,
        },
        ShutdownStage::KillingRemaining(i) => match e {
            ShutdownEvent::Killed => (t, f, s, if i + 1 < s.len() {
                ShutdownStage::KillingRemaining((i + 1) as usize)
            } else {
                ShutdownStage::Done
            }),
            _ => v,
        },
        ShutdownStage::Done => v,
    }
}

/// What the caller does at a stage.
pub open spec fn shutdown_action(v: ShutdownView) -> ShutdownAction {
    let (t, f, s, st) = v;
    match st {
        ShutdownStage::Signalling(i) => ShutdownAction::Signal(t[i as int].0),
        ShutdownStage::KillingFailed(i) => ShutdownAction::ForceKill(t[i as int].0),
        ShutdownStage::FirstCheck => ShutdownAction::CheckGone,
        ShutdownStage::Polling => ShutdownAction::Poll,
        ShutdownStage::Sleeping => ShutdownAction::Sleep,
        ShutdownStage::KillingRemaining(i) => ShutdownAction::ForceKill(s[i as int].0),
        ShutdownStage::Done => ShutdownAction::Finish,
    }
}

/// The indexes a stage holds are in range, and once signalling is over the
/// signalled targets are those whose signal did not fail.
pub open spec fn shutdown_wf(v: ShutdownView) -> bool {
    let (t, f, s, st) = v;
    match st {
        ShutdownStage::Signalling(i) => i < t.len(),
        ShutdownStage::KillingFailed(i) => i < t.len() && s == successful_spec(t, f),
        ShutdownStage::KillingRemaining(i) => i < s.len() && s == successful_spec(t, f),
        _ => s == successful_spec(t, f),
    }
}

proof fn lemma_first_failed_in_range(targets: Seq<(u32, String)>, failed: Seq<u32>, i: int)
    requires
        i >= 0,
    ensures
        first_failed_from(targets, failed, i) matches Some(j) ==> i <= j < targets.len() && pid_in(
            failed,
            targets[j].0,
        ),
    decreases targets.len() - i,
{
    if i < targets.len() && !pid_in(failed, targets[i].0) {
        lemma_first_failed_in_range(targets, failed, i + 1);
    }
}

proof fn lemma_first_failed_is_next(targets: Seq<(u32, String)>, failed: Seq<u32>, i: int)
    requires
        i >= 0,
    ensures
        forall|j: int|
            i <= j < targets.len() && pid_in(failed, #[trigger] targets[j].0) && (forall|k: int|
                i <= k < j ==> !pid_in(failed, #[trigger] targets[k].0)) ==> first_failed_from(
                targets,
                failed,
                i,
            ) == Some(j),
        (forall|k: int| i <= k < targets.len() ==> !pid_in(failed, #[trigger] targets[k].0))
            ==> first_failed_from(targets, failed, i) is None,
    decreases targets.len() - i,
{
    if i < targets.len() {
        lemma_first_failed_is_next(targets, failed, i + 1);
        if !pid_in(failed, targets[i].0) {
            assert forall|j: int|
                i <= j < targets.len() && pid_in(failed, #[trigger] targets[j].0) && (forall|k: int|
                    i <= k < j ==> !pid_in(failed, #[trigger] targets[k].0)) implies first_failed_from(
                targets,
                failed,
                i,
            ) == Some(j) by {
                assert(j != i);
                assert forall|k: int| i + 1 <= k < j implies !pid_in(failed, #[trigger] targets[k].0) by {}
            }
        }
    }
}

/// Every target whose graceful signal failed is force-killed, in order,
/// before any waiting: after the kill of the failed target at `i`, the next
/// action kills the next target whose signal failed, and only when none is
/// left does the shutdown go on to check the others (or end, when no signal
/// went through).
pub proof fn lemma_failed_targets_killed_in_turn(v: ShutdownView, i: usize)
    requires
        shutdown_wf(v),
        v.3 == ShutdownStage::KillingFailed(i),
    ensures
        ({
            let w = shutdown_step(v, ShutdownEvent::Killed);
            &&& w.0 == v.0 && w.1 == v.1 && w.2 == v.2
            &&& forall|j: int|
                i < j < v.0.len() && pid_in(v.1, #[trigger] v.0[j].0) && (forall|k: int|
                    i < k < j ==> !pid_in(v.1, #[trigger] v.0[k].0)) ==> w.3 == ShutdownStage::KillingFailed(
                    j as usize,
                )
            &&& (forall|k: int| i < k < v.0.len() ==> !pid_in(v.1, #[trigger] v.0[k].0)) ==> (if v.2.len()
                == 0 {
                w.3 == ShutdownStage::Done
            } else {
                w.3 == ShutdownStage::FirstCheck
            })
        }),
{
    lemma_first_failed_is_next(v.0, v.1, i + 1);
}

/// When the last signal has been sent, the first target whose signal failed
/// is the first to be force-killed; with none failed, the shutdown checks
/// the signalled processes, or ends when there is none. The signal's outcome
/// is recorded: a failed one adds the target's pid to the failed ones.
pub proof fn lemma_signalling_then_first_failed_killed(v: ShutdownView, i: usize, ok: bool)
    requires
        shutdown_wf(v),
        v.3 == ShutdownStage::Signalling(i),
    ensures
        ({
            let w = shutdown_step(v, ShutdownEvent::Signalled(ok));
            &&& w.0 == v.0
            &&& w.1 == (if ok {
                v.1
            } else {
                v.1.push(v.0[i as int].0)
            })
            &&& i + 1 < v.0.len() ==> w.3 == ShutdownStage::Signalling((i + 1) as usize)
            &&& i + 1 == v.0.len() ==> {
                &&& forall|x: (u32, String)|
                    #[trigger] w.2.contains(x) <==> (v.0.contains(x) && !pid_in(w.1, x.0))
                &&& forall|j: int|
                    0 <= j < v.0.len() && pid_in(w.1, #[trigger] v.0[j].0) && (forall|k: int|
                        0 <= k < j ==> !pid_in(w.1, #[trigger] v.0[k].0)) ==> w.3
                        == ShutdownStage::KillingFailed(j as usize)
                &&& (forall|k: int| 0 <= k < v.0.len() ==> !pid_in(w.1, #[trigger] v.0[k].0)) ==> (if w.2.len()
                    == 0 {
                    w.3 == ShutdownStage::Done
                } else {
                    w.3 == ShutdownStage::FirstCheck
                })
            }
        }),
{
    let f2 = if ok {
        v.1
    } else {
        v.1.push(v.0[i as int].0)
    };
    lemma_first_failed_is_next(v.0, f2, 0);
    lemma_signalled_are_unfailed(v.0, f2);
}

/// The targets waited for are exactly those whose signal did not fail.
pub proof fn lemma_signalled_are_unfailed(targets: Seq<(u32, String)>, failed: Seq<u32>)
    ensures
        forall|x: (u32, String)|
            #[trigger] successful_spec(targets, failed).contains(x) <==> (targets.contains(x) && !pid_in(
                failed,
                x.0,
            )),
    decreases targets.len(),
{
    if targets.len() > 0 {
        let init = targets.drop_last();
        let last = targets.last();
        lemma_signalled_are_unfailed(init, failed);
        let r = successful_spec(init, failed);
        let out = successful_spec(targets, failed);
        assert(out == (if pid_in(failed, last.0) {
            r
        } else {
            r.push(last)
        }));
        assert forall|x: (u32, String)|
            #[trigger] out.contains(x) <==> (targets.contains(x) && !pid_in(failed, x.0)) by {
            if targets.contains(x) && !pid_in(failed, x.0) {
                let k = choose|k: int| 0 <= k < targets.len() && targets[k] == x;
                if k < targets.len() - 1 {
                    assert(init[k] == x);
                    assert(init.contains(x));
                    assert(r.contains(x));
                    let q = choose|q: int| 0 <= q < r.len() && r[q] == x;
                    if !pid_in(failed, last.0) {
                        assert(r.push(last)[q] == x);
                    }
                } else {
                    assert(x == last);
                    assert(r.push(last)[r.len() as int] == x);
                }
            }
            if out.contains(x) {
                let q = choose|q: int| 0 <= q < out.len() && out[q] == x;
                if pid_in(failed, last.0) || q < r.len() {
                    assert(r[q] == x);
                    assert(r.contains(x));
                    let k = choose|k: int| 0 <= k < init.len() && init[k] == x;
                    assert(targets[k] == x);
                } else {
                    assert(x == last);
                    assert(targets[targets.len() - 1] == x);
                }
            }
        }
    } else {
        assert(successful_spec(targets, failed) =~= Seq::<(u32, String)>::empty());
    }
}

/// The single check after the kills ends the shutdown when every signalled
/// process is gone and otherwise starts waiting; a pause leads back to
/// waiting; an ended shutdown stays ended whatever is reported.
pub proof fn lemma_check_wait_and_end(v: ShutdownView, e: ShutdownEvent)
    requires
        shutdown_wf(v),
    ensures
        v.3 is FirstCheck ==> shutdown_step(v, ShutdownEvent::Checked(true)).3 == ShutdownStage::Done,
        v.3 is FirstCheck ==> shutdown_step(v, ShutdownEvent::Checked(false)).3 == ShutdownStage::Polling,
        v.3 is Sleeping ==> shutdown_step(v, ShutdownEvent::Slept).3 == ShutdownStage::Polling,
        v.3 is Done ==> shutdown_step(v, e) == v,
{
}

/// Once the deadline passes with signalled processes, each of them is
/// force-killed in turn, and the shutdown ends only after the last one.
pub proof fn lemma_survivors_killed_in_turn(v: ShutdownView, all_gone: bool)
    requires
        shutdown_wf(v),
    ensures
        v.3 is Polling && v.2.len() > 0 ==> shutdown_step(
            v,
            ShutdownEvent::Polled { deadline_passed: true, all_gone },
        ).3 == ShutdownStage::KillingRemaining(0),
        v.3 is Polling ==> shutdown_step(
            v,
            ShutdownEvent::Polled { deadline_passed: false, all_gone: true },
        ).3 == ShutdownStage::Done,
        v.3 is Polling ==> shutdown_step(
            v,
            ShutdownEvent::Polled { deadline_passed: false, all_gone: false },
        ).3 == ShutdownStage::Sleeping,
        v.3 matches ShutdownStage::KillingRemaining(i) ==> shutdown_step(v, ShutdownEvent::Killed).3 == (if i
            + 1 < v.2.len() {
            ShutdownStage::KillingRemaining((i + 1) as usize)
        } else {
            ShutdownStage::Done
        }),
{
}

fn has_pid(pids: &Vec<u32>, pid: u32) -> (b: bool)
    ensures
        b == pid_in(pids@, pid),
{
    let mut j: usize = 0;
    while j < pids.len()
        invariant
            j <= pids@.len(),
            forall|q: int| 0 <= q < j ==> pids@[q] != pid,
        decreases pids.len() - j,
    {
        if pids[j] == pid {
            return true;
        }
        j = j + 1;
    }
    false
}

impl GracefulShutdown {
    pub closed spec fn wf(&self) -> bool {
        shutdown_wf(self@)
    }

    /// A shutdown of these targets, starting with the first signal; with no
    /// target it is already done.
    pub fn new(targets: Vec<(u32, String)>) -> (r: Self)
        ensures
            r.wf(),
            r@ == (targets@, Seq::<u32>::empty(), Seq::<(u32, String)>::empty(), if targets@.len() > 0 {
                ShutdownStage::Signalling(0)
            } else {
                ShutdownStage::Done
            }),
    {
        let stage = if targets.len() > 0 {
            ShutdownStage::Signalling(0)
        } else {
            ShutdownStage::Done
        };
        let r = GracefulShutdown { targets, failed: Vec::new(), successful: Vec::new(), stage };
        proof {
            if r.targets@.len() == 0 {
                assert(successful_spec(r.targets@, r.failed@) =~= Seq::<(u32, String)>::empty());
            }
        }
        r
    }

    /// The next action.
    pub fn action(&self) -> (a: ShutdownAction)
        requires
            self.wf(),
        ensures
            a == shutdown_action(self@),
    {
        match self.stage {
            ShutdownStage::Signalling(i) => ShutdownAction::Signal(self.targets[i].0),
            ShutdownStage::KillingFailed(i) => ShutdownAction::ForceKill(self.targets[i].0),
            ShutdownStage::FirstCheck => ShutdownAction::CheckGone,
            ShutdownStage::Polling => ShutdownAction::Poll,
            ShutdownStage::Sleeping => ShutdownAction::Sleep,
            ShutdownStage::KillingRemaining(i) => ShutdownAction::ForceKill(self.successful[i].0),
            ShutdownStage::Done => ShutdownAction::Finish,
        }
    }

    /// The targets whose signal went through, once signalling is over.
    pub fn signalled(&self) -> (s: &Vec<(u32, String)>)
        ensures
            s@ == self@.2,
    {
        &self.successful
    }

    /// Whether the shutdown is over.
    pub fn is_done(&self) -> (b: bool)
        ensures
            b == (self@.3 is Done),
    {
        matches!(self.stage, ShutdownStage::Done)
    }

    fn stage_after_failed_kills(&self, from: usize) -> (st: ShutdownStage)
        requires
            self.successful@ == successful_spec(self.targets@, self.failed@),
        ensures
            st == after_failed_kills(self.targets@, self.failed@, from as int),
    {
        let mut j = from;
        while j < self.targets.len()
            invariant
                from <= j,
                first_failed_from(self.targets@, self.failed@, from as int) == first_failed_from(
                    self.targets@,
                    self.failed@,
                    j as int,
                ),
            decreases self.targets.len() - j,
        {
            if has_pid(&self.failed, self.targets[j].0) {
                return ShutdownStage::KillingFailed(j);
            }
            j = j + 1;
        }
        if self.successful.len() == 0 {
            ShutdownStage::Done
        } else {
            ShutdownStage::FirstCheck
        }
    }

    /// Takes in what happened after the current action.
    pub fn step(&mut self, e: ShutdownEvent)
        requires
            old(self).wf(),
        ensures
            final(self).wf(),
            final(self)@ == shutdown_step(old(self)@, e),
    {
        match (self.stage, e) {
            (ShutdownStage::Signalling(i), ShutdownEvent::Signalled(ok)) => {
                let n = self.targets.len();
                if !ok {
                    let pid = self.targets[i].0;
                    self.failed.push(pid);
                }
                if i + 1 < n {
                    self.stage = ShutdownStage::Signalling(i + 1);
                } else {
                    self.successful = successful_targets(&self.targets, &self.failed);
                    let st = self.stage_after_failed_kills(0);
                    proof {
                        lemma_first_failed_in_range(self.targets@, self.failed@, 0);
                    }
                    self.stage = st;
                }
            },
            (ShutdownStage::KillingFailed(i), ShutdownEvent::Killed) => {
                let n = self.targets.len();
                assert(i < n);
                let st = self.stage_after_failed_kills(i + 1);
                proof {
                    lemma_first_failed_in_range(self.targets@, self.failed@, i + 1);
                }
                self.stage = st;
            },
            (ShutdownStage::FirstCheck, ShutdownEvent::Checked(all_gone)) => {
                self.stage = if all_gone {
                    ShutdownStage::Done
                } else {
                    ShutdownStage::Polling
                };
            },
            (ShutdownStage::Polling, ShutdownEvent::Polled { deadline_passed, all_gone }) => {
                self.stage = if deadline_passed {
                    if self.successful.len() > 0 {
                        ShutdownStage::KillingRemaining(0)
                    } else {
                        ShutdownStage::Done
                    }
                } else if all_gone {
                    ShutdownStage::Done
                } else {
                    ShutdownStage::Sleeping
                };
            },
            (ShutdownStage::Sleeping, ShutdownEvent::Slept) => {
                self.stage = ShutdownStage::Polling;
            },
            (ShutdownStage::KillingRemaining(i), ShutdownEvent::Killed) => {
                let n = self.successful.len();
                self.stage = if i + 1 < n {
                    ShutdownStage::KillingRemaining(i + 1)
                } else {
                    ShutdownStage::Done
                };
            },
            _ => {},
        }
    }
}

} // verus!
