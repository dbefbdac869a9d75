//! The per-instance lifecycle state machine.
//!
//! Each instance occupies at most one entry. An entry carries a lifecycle
//! slot (`Starting`, `Live`, `Stopping`) and a flag telling whether a
//! create/update/delete style operation holds a guard on it. Once the
//! application starts shutting down, every entry is drained and no further
//! operation is admitted.

use vstd::prelude::*;
use vstd::string::*;

use crate::assoc::{key_view, filter_map_seq, filter_map_map, lemma_filter_map, lemma_filter_map_step, distinct_keys, has_key, lemma_map_of_dom, lemma_map_of_index, lemma_map_of_push, lemma_map_of_remove, lemma_map_of_update, map_of};
use crate::error::{detail_payload, AppError, ErrorKind};
use crate::monitor::{LiveSnapshot, MonitorOutcome};
use crate::text::str_to_string;

verus! {

/// Lifecycle state reported to clients.
#[derive(Debug, Clone, Copy, PartialEq, Eq, Structural)]
pub enum InstanceState {
    Stopped,
    Starting,
    Running,
    Stopping,
}

/// A state change of one instance.
#[derive(Debug, Clone)]
pub struct RuntimeEvent {
    pub instance_id: String,
    pub state: InstanceState,
}

/// Information about a running instance.
#[derive(Debug)]
pub struct InstanceProcess {
    pub pid: u32,
    pub executable_path: String,
    pub port: u16,
    pub dashboard_enabled: bool,
    /// Number of consecutive failed liveness probes.
    pub alive_failure_count: u32,
    /// Monotonic time (milliseconds) of the next liveness probe, when retrying.
    pub next_alive_check_at: Option<u64>,
}

impl InstanceProcess {
    pub fn new(pid: u32, executable_path: String, port: u16, dashboard_enabled: bool) -> (r: Self)
        ensures
            r.pid == pid,
            r.executable_path == executable_path,
            r.port == port,
            r.dashboard_enabled == dashboard_enabled,
            r.alive_failure_count == 0,
            r.next_alive_check_at is None,
    {
        InstanceProcess {
            pid,
            executable_path,
            port,
            dashboard_enabled,
            alive_failure_count: 0,
            next_alive_check_at: None,
        }
    }
}

/// Runtime info returned for each tracked instance.
#[derive(Debug, Clone, Copy, PartialEq, Eq, Structural)]
pub enum InstanceRuntimeInfo {
    /// Launch in progress.
    Starting,
    /// Process running.
    Live { port: u16, dashboard_enabled: bool },
    /// Shutdown in progress.
    Stopping { port: u16, dashboard_enabled: bool },
}

/// Lifecycle phase of an instance.
#[derive(Debug)]
pub enum Slot {
    /// Launch IO in progress.
    Starting,
    /// Process running.
    Live(InstanceProcess),
    /// Shutdown IO in progress; keeps the process so it can still be killed.
    Stopping(InstanceProcess),
}

/// Lifecycle slot plus guard flag of one instance.
#[derive(Debug)]
pub struct InstanceEntry {
    pub slot: Option<Slot>,
    pub guarded: bool,
}

/// Result of a successful instance launch.
#[derive(Debug)]
pub struct LaunchResult {
    pub pid: u32,
    pub executable_path: String,
    pub port: u16,
    pub dashboard_enabled: bool,
}

/// What the state machine decided once a launch attempt finished.
#[derive(Debug, PartialEq, Eq, Structural)]
pub enum LaunchOutcome {
    /// The application began shutting down meanwhile; the slot was dropped.
    ShuttingDown,
    /// The instance is live on this port.
    Running(u16),
    /// The launch failed; the slot was dropped.
    Failed,
}

/// The launcher's per-instance process slots, by instance id, and whether
/// the application is shutting down.
///
/// The map is kept as a list of pairs with distinct keys: vstd states what
/// `HashMap` lookups return only for key types it knows to hash and compare
/// by value (integers, `bool`), not for `String`, so the contracts here are
/// stated over this list and its view as a map.
pub struct ProcessState {
    slots: Vec<(String, InstanceEntry)>,
    shutting_down: bool,
}

pub open spec fn is_live(e: InstanceEntry) -> bool {
    e.slot matches Some(Slot::Live(_))
}

pub open spec fn shutting_down_msg(id: Seq<char>) -> Seq<char> {
    "Cannot operate on instance "@ + id + ": application is shutting down"@
}

pub open spec fn busy_msg(id: Seq<char>) -> Seq<char> {
    "Instance "@ + id + ": another operation is in progress"@
}

pub open spec fn already_stopping_msg(id: Seq<char>) -> Seq<char> {
    "Instance "@ + id + " is already stopping"@
}

pub open spec fn still_starting_msg(id: Seq<char>) -> Seq<char> {
    "Instance "@ + id + " is still starting"@
}

pub open spec fn restart_shutdown_msg(id: Seq<char>) -> Seq<char> {
    "Cannot restart instance "@ + id + ": application is shutting down"@
}

pub open spec fn is_process_error(e: AppError, msg: Seq<char>) -> bool {
    e@.0 == ErrorKind::Process && e@.1 == detail_payload(msg)
}

pub open spec fn is_not_running_error(e: AppError) -> bool {
    e@.0 == ErrorKind::InstanceNotRunning && e@.1 == Seq::<(Seq<char>, Seq<char>)>::empty()
}

pub open spec fn is_running_error(e: AppError) -> bool {
    e@.0 == ErrorKind::InstanceRunning && e@.1 == Seq::<(Seq<char>, Seq<char>)>::empty()
}

fn msg3(a: &str, b: &str, c: &str) -> (r: String)
    ensures
        r@ == a@ + b@ + c@,
{
    let mut r = String::from_str(a);
    r.append(b);
    r.append(c);
    r
}

impl View for ProcessState {
    type V = (Map<Seq<char>, InstanceEntry>, bool);

    closed spec fn view(&self) -> Self::V {
        (map_of(key_view(self.slots@)), self.shutting_down)
    }
}

impl ProcessState {
    /// Entries keyed by distinct instance ids.
    pub closed spec fn wf(&self) -> bool {
        distinct_keys(key_view(self.slots@))
    }

    pub fn new() -> (r: Self)
        ensures
            r.wf(),
            r@.0 == Map::<Seq<char>, InstanceEntry>::empty(),
            !r@.1,
    {
        let r = ProcessState { slots: Vec::new(), shutting_down: false };
        assert(key_view(r.slots@) =~= Seq::<(Seq<char>, InstanceEntry)>::empty());
        r
    }

    pub fn is_shutting_down(&self) -> (b: bool)
        ensures
            b == self@.1,
    {
        self.shutting_down
    }

    /// Index of the entry for `id`.
    fn find(&self, id: &str) -> (r: Option<usize>)
        requires
            self.wf(),
        ensures
            match r {
                Some(i) => i < self.slots@.len() && self.slots@[i as int].0@ == id@
                    && self@.0.dom().contains(id@) && self@.0[id@] == self.slots@[i as int].1,
                None => !self@.0.dom().contains(id@),
            },
    {
        let key = str_to_string(id);
        let mut i: usize = 0;
        while i < self.slots.len()
            invariant
                i <= self.slots@.len(),
                self.wf(),
                key@ == id@,
                forall|j: int| 0 <= j < i ==> self.slots@[j].0@ != id@,
            decreases self.slots.len() - i,
        {
            if self.slots[i].0 == key {
                proof {
                    assert(key_view(self.slots@)[i as int] == (
                        self.slots@[i as int].0@,
                        self.slots@[i as int].1,
                    ));
                    lemma_map_of_index(key_view(self.slots@), i as int);
                }
                return Some(i);
            }
            i = i + 1;
        }
        proof {
            lemma_map_of_dom(key_view(self.slots@), id@);
            if has_key(key_view(self.slots@), id@) {
                let j = choose|j: int|
                    0 <= j < key_view(self.slots@).len() && key_view(self.slots@)[j].0 == id@;
                assert(self.slots@[j].0@ == id@);
            }
        }
        None
    }

    /// Removes the entry at index `i`.
    fn remove_at(&mut self, i: usize)
        requires
            old(self).wf(),
            i < old(self).slots@.len(),
        ensures
            final(self).wf(),
            final(self)@.0 == old(self)@.0.remove(old(self).slots@[i as int].0@),
            final(self)@.1 == old(self)@.1,
    {
        proof {
            lemma_map_of_remove(key_view(self.slots@), i as int);
            assert(key_view(self.slots@.remove(i as int)) =~= key_view(self.slots@).remove(
                i as int,
            ));
        }
        let _ = self.slots.remove(i);
    }

    /// Inserts or replaces the entry for `id`.
    fn upsert(&mut self, id: &str, e: InstanceEntry)
        requires
            old(self).wf(),
        ensures
            final(self).wf(),
            final(self)@.0 == old(self)@.0.insert(id@, e),
            final(self)@.1 == old(self)@.1,
    {
        match self.find(id) {
            Some(i) => {
                let key = str_to_string(id);
                proof {
                    assert(key_view(self.slots@)[i as int].0 == id@);
                    lemma_map_of_update(key_view(self.slots@), i as int, e);
                }
                let ghost old_slots = self.slots@;
                self.slots.set(i, (key, e));
                proof {
                    assert(key_view(self.slots@) =~= key_view(old_slots).update(
                        i as int,
                        (key_view(old_slots)[i as int].0, e),
                    ));
                }
            },
            None => {
                let key = str_to_string(id);
                proof {
                    lemma_map_of_dom(key_view(self.slots@), id@);
                    lemma_map_of_push(key_view(self.slots@), id@, e);
                }
                let ghost old_slots = self.slots@;
                self.slots.push((key, e));
                proof {
                    assert(key_view(self.slots@) =~= key_view(old_slots).push((id@, e)));
                }
            },
        }
    }

    /// Removes the entry for `id`, if any.
    pub fn remove(&mut self, id: &str)
        requires
            old(self).wf(),
        ensures
            final(self).wf(),
            final(self)@.0 == old(self)@.0.remove(id@),
            final(self)@.1 == old(self)@.1,
    {
        match self.find(id) {
            Some(i) => {
                self.remove_at(i);
            },
            None => {
                assert(self@.0.remove(id@) =~= self@.0);
            },
        }
    }

    /// Reject if the application is shutting down.
    pub fn check_active(&self, id: &str) -> (r: Result<(), AppError>)
        ensures
            r is Ok <==> !self@.1,
            r matches Err(e) ==> is_process_error(e, shutting_down_msg(id@)),
    {
        if self.shutting_down {
            let m = msg3("Cannot operate on instance ", id, ": application is shutting down");
            return Err(AppError::process(m.as_str()));
        }
        Ok(())
    }

    /// Reject if `id` is guarded or already occupies a lifecycle slot.
    pub fn ensure_vacant(&self, id: &str) -> (r: Result<(), AppError>)
        requires
            self.wf(),
        ensures
            r is Ok <==> !self@.0.dom().contains(id@),
            r matches Err(e) ==> if self@.0[id@].guarded {
                is_process_error(e, busy_msg(id@))
            } else {
                is_running_error(e)
            },
    {
        match self.find(id) {
            None => Ok(()),
            Some(i) => {
                if self.slots[i].1.guarded {
                    let m = msg3("Instance ", id, ": another operation is in progress");
                    Err(AppError::process(m.as_str()))
                } else {
                    Err(AppError::instance_running())
                }
            },
        }
    }

    /// Transition a `Live` slot to `Stopping`, returning the pid and executable path.
    pub fn prepare_stop(&mut self, id: &str) -> (r: Result<(u32, String), AppError>)
        requires
            old(self).wf(),
        ensures
            final(self).wf(),
            final(self)@.1 == old(self)@.1,
            match r {
                Ok((pid, exe)) => {
                    &&& old(self)@.0.dom().contains(id@)
                    &&& !old(self)@.0[id@].guarded
                    &&& old(self)@.0[id@].slot matches Some(Slot::Live(p))
                    &&& pid == p.pid && exe == p.executable_path
                    &&& final(self)@.0 == old(self)@.0.insert(
                        id@,
                        InstanceEntry { slot: Some(Slot::Stopping(p)), guarded: false },
                    )
                },
                Err(e) => {
                    &&& final(self)@.0 == old(self)@.0
                    &&& if !old(self)@.0.dom().contains(id@) {
                        is_not_running_error(e)
                    } else if old(self)@.0[id@].guarded {
                        is_process_error(e, busy_msg(id@))
                    } else {
                        match old(self)@.0[id@].slot {
                            Some(Slot::Stopping(_)) => is_process_error(e, already_stopping_msg(id@)),
                            Some(Slot::Starting) => is_process_error(e, still_starting_msg(id@)),
                            Some(Slot::Live(_)) => false,
                            None => is_not_running_error(e),
                        }
                    }
                },
            },
    {
        let i = match self.find(id) {
            None => {
                return Err(AppError::instance_not_running());
            },
            Some(i) => i,
        };
        if self.slots[i].1.guarded {
            let m = msg3("Instance ", id, ": another operation is in progress");
            return Err(AppError::process(m.as_str()));
        }
        match &self.slots[i].1.slot {
            Some(Slot::Live(_)) => {},
            Some(Slot::Stopping(_)) => {
                let m = msg3("Instance ", id, " is already stopping");
                return Err(AppError::process(m.as_str()));
            },
            Some(Slot::Starting) => {
                let m = msg3("Instance ", id, " is still starting");
                return Err(AppError::process(m.as_str()));
            },
            None => {
                return Err(AppError::instance_not_running());
            },
        }
        let ghost before = self@.0;
        let taken = self.slots.remove(i);
        proof {
            lemma_map_of_remove(key_view(old(self).slots@), i as int);
            assert(key_view(self.slots@) =~= key_view(old(self).slots@).remove(i as int));
        }
        let (key, entry) = taken;
        match entry.slot {
            Some(Slot::Live(p)) => {
                let pid = p.pid;
                let exe = p.executable_path.clone();
                proof {
                    lemma_map_of_dom(key_view(self.slots@), id@);
                    lemma_map_of_push(
                        key_view(self.slots@),
                        id@,
                        InstanceEntry { slot: Some(Slot::Stopping(p)), guarded: false },
                    );
                }
                let ghost mid = self.slots@;
                self.slots.push((key, InstanceEntry { slot: Some(Slot::Stopping(p)), guarded: false }));
                proof {
                    assert(key_view(self.slots@) =~= key_view(mid).push(
                        (id@, InstanceEntry { slot: Some(Slot::Stopping(p)), guarded: false }),
                    ));
                    assert(self@.0 =~= before.insert(
                        id@,
                        InstanceEntry { slot: Some(Slot::Stopping(p)), guarded: false },
                    ));
                }
                Ok((pid, exe))
            },
            _ => {
                proof {
                    assert(false);
                }
                Err(AppError::instance_not_running())
            },
        }
    }

    /// Revert a `Stopping` slot back to `Live`. Returns `true` if reverted.
    pub fn revert_stop(&mut self, id: &str) -> (b: bool)
        requires
            old(self).wf(),
        ensures
            final(self).wf(),
            final(self)@.1 == old(self)@.1,
            b <==> (old(self)@.0.dom().contains(id@) && old(self)@.0[id@].slot matches Some(
                Slot::Stopping(_),
            )),
            b ==> (old(self)@.0[id@].slot matches Some(Slot::Stopping(p)) && final(self)@.0
                == old(self)@.0.insert(
                id@,
                InstanceEntry { slot: Some(Slot::Live(p)), guarded: old(self)@.0[id@].guarded },
            )),
            !b ==> final(self)@.0 == old(self)@.0,
            final(self)@.0 == revert_effect(old(self)@.0, id@),
    {
        let i = match self.find(id) {
            None => {
                return false;
            },
            Some(i) => i,
        };
        match &self.slots[i].1.slot {
            Some(Slot::Stopping(_)) => {},
            _ => {
                return false;
            },
        }
        let ghost before = self@.0;
        let taken = self.slots.remove(i);
        proof {
            lemma_map_of_remove(key_view(old(self).slots@), i as int);
            assert(key_view(self.slots@) =~= key_view(old(self).slots@).remove(i as int));
        }
        let (key, entry) = taken;
        let guarded = entry.guarded;
        match entry.slot {
            Some(Slot::Stopping(p)) => {
                proof {
                    lemma_map_of_dom(key_view(self.slots@), id@);
                    lemma_map_of_push(
                        key_view(self.slots@),
                        id@,
                        InstanceEntry { slot: Some(Slot::Live(p)), guarded },
                    );
                }
                let ghost mid = self.slots@;
                self.slots.push((key, InstanceEntry { slot: Some(Slot::Live(p)), guarded }));
                proof {
                    assert(key_view(self.slots@) =~= key_view(mid).push(
                        (id@, InstanceEntry { slot: Some(Slot::Live(p)), guarded }),
                    ));
                    assert(self@.0 =~= before.insert(
                        id@,
                        InstanceEntry { slot: Some(Slot::Live(p)), guarded },
                    ));
                }
                true
            },
            _ => {
                proof {
                    assert(false);
                }
                false
            },
        }
    }

    /// Removes and returns the entry at index `i`.
    fn take_at(&mut self, i: usize) -> (r: (String, InstanceEntry))
        requires
            old(self).wf(),
            i < old(self).slots@.len(),
        ensures
            final(self).wf(),
            r.0@ == old(self).slots@[i as int].0@,
            old(self)@.0.dom().contains(r.0@),
            old(self)@.0[r.0@] == r.1,
            final(self)@.0 == old(self)@.0.remove(r.0@),
            final(self)@.1 == old(self)@.1,
    {
        proof {
            assert(key_view(self.slots@)[i as int] == (
                self.slots@[i as int].0@,
                self.slots@[i as int].1,
            ));
            lemma_map_of_index(key_view(self.slots@), i as int);
            lemma_map_of_remove(key_view(self.slots@), i as int);
            assert(key_view(self.slots@.remove(i as int)) =~= key_view(self.slots@).remove(
                i as int,
            ));
        }
        self.slots.remove(i)
    }

    /// Adds an entry under a key that is not present.
    fn put_new(&mut self, key: String, e: InstanceEntry)
        requires
            old(self).wf(),
            !old(self)@.0.dom().contains(key@),
        ensures
            final(self).wf(),
            final(self)@.0 == old(self)@.0.insert(key@, e),
            final(self)@.1 == old(self)@.1,
    {
        proof {
            lemma_map_of_dom(key_view(self.slots@), key@);
            lemma_map_of_push(key_view(self.slots@), key@, e);
        }
        let ghost before = self.slots@;
        self.slots.push((key, e));
        proof {
            assert(key_view(self.slots@) =~= key_view(before).push((key@, e)));
        }
    }

    /// Acquire a guard that keeps lifecycle operations off the instance
    /// until it is released.
    pub fn acquire_guard(&mut self, id: &str) -> (r: Result<InstanceGuard, AppError>)
        requires
            old(self).wf(),
        ensures
            final(self).wf(),
            final(self)@.1 == old(self)@.1,
            r is Ok <==> (!old(self)@.1 && !old(self)@.0.dom().contains(id@)),
            match r {
                Ok(g) => g@ == id@ && final(self)@.0 == old(self)@.0.insert(id@, guard_entry()),
                Err(e) => final(self)@.0 == old(self)@.0 && admission_error(old(self)@, id@, e),
            },
    {
        self.check_active(id)?;
        self.ensure_vacant(id)?;
        self.put_new(str_to_string(id), InstanceEntry { slot: None, guarded: true });
        Ok(InstanceGuard { instance_id: str_to_string(id) })
    }

    /// Release a guard: drops the guard-only entry it created, if still there.
    pub fn release_guard(&mut self, guard: InstanceGuard)
        requires
            old(self).wf(),
        ensures
            final(self).wf(),
            final(self)@.1 == old(self)@.1,
            final(self)@.0 == release_effect(old(self)@.0, guard@),
    {
        match self.find(guard.instance_id.as_str()) {
            Some(i) => {
                let is_guard_only = match &self.slots[i].1.slot {
                    None => self.slots[i].1.guarded,
                    Some(_) => false,
                };
                if is_guard_only {
                    self.remove_at(i);
                }
            },
            None => {},
        }
    }

    /// First phase of a start: admit the request and mark the instance `Starting`.
    pub fn begin_start(&mut self, id: &str) -> (r: Result<(), AppError>)
        requires
            old(self).wf(),
        ensures
            final(self).wf(),
            final(self)@.1 == old(self)@.1,
            r is Ok <==> (!old(self)@.1 && !old(self)@.0.dom().contains(id@)),
            match r {
                Ok(_) => final(self)@.0 == old(self)@.0.insert(id@, starting_entry()),
                Err(e) => final(self)@.0 == old(self)@.0 && admission_error(old(self)@, id@, e),
            },
    {
        self.check_active(id)?;
        self.ensure_vacant(id)?;
        self.put_new(str_to_string(id), starting_exec());
        Ok(())
    }

    /// First phase of a restart: a live instance moves to `Stopping` and its
    /// pid and executable are returned; an instance that is not running goes
    /// straight to `Starting`.
    pub fn begin_restart(&mut self, id: &str) -> (r: Result<Option<(u32, String)>, AppError>)
        requires
            old(self).wf(),
        ensures
            final(self).wf(),
            final(self)@.1 == old(self)@.1,
            old(self)@.1 ==> final(self)@.0 == old(self)@.0,
            old(self)@.1 ==> (r matches Err(e) && is_process_error(e, shutting_down_msg(id@))),
            !old(self)@.1 ==> match r {
                Ok(Some((pid, exe))) => {
                    &&& old(self)@.0.dom().contains(id@)
                    &&& !old(self)@.0[id@].guarded
                    &&& old(self)@.0[id@].slot matches Some(Slot::Live(p))
                    &&& pid == p.pid && exe == p.executable_path
                    &&& final(self)@.0 == old(self)@.0.insert(id@, stopping_of(p))
                },
                Ok(None) => {
                    &&& not_running(old(self)@.0, id@)
                    &&& final(self)@.0 == old(self)@.0.insert(id@, starting_entry())
                },
                Err(e) => {
                    &&& final(self)@.0 == old(self)@.0
                    &&& !not_running(old(self)@.0, id@)
                    &&& stop_refusal(old(self)@.0, id@, e)
                },
            },
    {
        self.check_active(id)?;
        match self.prepare_stop(id) {
            Ok((pid, exe)) => Ok(Some((pid, exe))),
            Err(e) => {
                if e.kind() == ErrorKind::InstanceNotRunning {
                    self.upsert(id, starting_exec());
                    Ok(None)
                } else {
                    Err(e)
                }
            },
        }
    }

    /// After the shutdown IO of a restart: move `Stopping` to `Starting`, or
    /// drop the entry and refuse when the application is shutting down.
    pub fn after_restart_stop(&mut self, id: &str) -> (r: Result<(), AppError>)
        requires
            old(self).wf(),
        ensures
            final(self).wf(),
            final(self)@.1 == old(self)@.1,
            r is Ok <==> !old(self)@.1,
            match r {
                Ok(_) => final(self)@.0 == set_slot(old(self)@.0, id@, Some(Slot::Starting)),
                Err(e) => final(self)@.0 == old(self)@.0.remove(id@) && is_process_error(
                    e,
                    restart_shutdown_msg(id@),
                ),
            },
    {
        if self.shutting_down {
            self.remove(id);
            let m = msg3("Cannot restart instance ", id, ": application is shutting down");
            return Err(AppError::process(m.as_str()));
        }
        self.set_slot_exec(id, Some(Slot::Starting));
        Ok(())
    }

    /// Replaces the slot of an existing entry, keeping its guard flag.
    fn set_slot_exec(&mut self, id: &str, slot: Option<Slot>)
        requires
            old(self).wf(),
        ensures
            final(self).wf(),
            final(self)@.1 == old(self)@.1,
            final(self)@.0 == set_slot(old(self)@.0, id@, slot),
    {
        match self.find(id) {
            Some(i) => {
                let (key, entry) = self.take_at(i);
                self.put_new(key, InstanceEntry { slot, guarded: entry.guarded });
            },
            None => {},
        }
    }

    /// Once launch IO has finished: if the application began shutting down
    /// meanwhile, drop the entry and report `true`.
    pub fn abandon_if_shutting_down(&mut self, id: &str) -> (b: bool)
        requires
            old(self).wf(),
        ensures
            final(self).wf(),
            final(self)@.1 == old(self)@.1,
            b == old(self)@.1,
            b ==> final(self)@.0 == old(self)@.0.remove(id@),
            !b ==> final(self)@.0 == old(self)@.0,
    {
        if self.shutting_down {
            self.remove(id);
            true
        } else {
            false
        }
    }

    /// Records the outcome of a launch: the instance becomes live on success;
    /// on failure its entry is dropped and the error handed back.
    pub fn commit_launch(&mut self, id: &str, result: Result<LaunchResult, AppError>) -> (r:
        Result<u16, AppError>)
        requires
            old(self).wf(),
        ensures
            final(self).wf(),
            final(self)@.1 == old(self)@.1,
            match result {
                Ok(l) => r == Ok::<u16, AppError>(l.port) && final(self)@.0 == set_slot(
                    old(self)@.0,
                    id@,
                    Some(Slot::Live(process_of(l))),
                ),
                Err(e) => r == Err::<u16, AppError>(e) && final(self)@.0 == old(self)@.0.remove(
                    id@,
                ),
            },
    {
        match result {
            Ok(l) => {
                let port = l.port;
                let p = InstanceProcess::new(l.pid, l.executable_path, l.port, l.dashboard_enabled);
                self.set_slot_exec(id, Some(Slot::Live(p)));
                Ok(port)
            },
            Err(e) => {
                self.remove(id);
                Err(e)
            },
        }
    }

    /// Drain every entry for application shutdown: marks the state as
    /// shutting down, empties it, and returns the processes of the `Live`
    /// and `Stopping` entries, keyed by instance id.
    pub fn drain_for_shutdown(&mut self) -> (r: Vec<(String, InstanceProcess)>)
        requires
            old(self).wf(),
        ensures
            final(self).wf(),
            final(self)@.1,
            final(self)@.0 == Map::<Seq<char>, InstanceEntry>::empty(),
            distinct_keys(key_view(r@)),
            map_of(key_view(r@)) == filter_map_map(old(self)@.0, killable_fn()),
    {
        self.shutting_down = true;
        let mut rest: Vec<(String, InstanceEntry)> = Vec::new();
        std::mem::swap(&mut rest, &mut self.slots);
        let ghost orig = key_view(rest@);
        let ghost f = killable_fn();
        let mut out: Vec<(String, InstanceProcess)> = Vec::new();
        let ghost mut i: int = 0;
        assert(key_view(self.slots@) =~= Seq::<(Seq<char>, InstanceEntry)>::empty());
        while rest.len() > 0
            invariant
                0 <= i <= orig.len(),
                key_view(rest@) == orig.subrange(i, orig.len() as int),
                key_view(out@) == filter_map_seq(orig.take(i), f),
                f == killable_fn(),
                self.slots@.len() == 0,
                self.shutting_down,
            decreases rest.len(),
        {
            let ghost before = rest@;
            assert(key_view(before).len() == before.len());
            let (key, entry) = rest.remove(0);
            proof {
                assert(key_view(before)[0] == (key@, entry));
                assert(orig.subrange(i, orig.len() as int)[0] == orig[i]);
                assert(orig[i] == (key@, entry));
                lemma_filter_map_step(orig, f, i);
                assert(rest@ =~= before.subrange(1, before.len() as int));
                assert forall|j: int| 0 <= j < rest@.len() implies key_view(rest@)[j] == orig.subrange(
                    i + 1,
                    orig.len() as int,
                )[j] by {
                    assert(rest@[j] == before[j + 1]);
                    assert(key_view(before)[j + 1] == orig.subrange(i, orig.len() as int)[j + 1]);
                }
                assert(key_view(rest@) =~= orig.subrange(i + 1, orig.len() as int));
            }
            let ghost out_before = out@;
            match entry.slot {
                Some(Slot::Live(p)) => {
                    out.push((key, p));
                    proof {
                        assert(key_view(out@) =~= key_view(out_before).push((key@, p)));
                    }
                },
                Some(Slot::Stopping(p)) => {
                    out.push((key, p));
                    proof {
                        assert(key_view(out@) =~= key_view(out_before).push((key@, p)));
                    }
                },
                _ => {},
            }
            proof {
                i = i + 1;
            }
        }
        proof {
            assert(orig.take(i) =~= orig);
            lemma_filter_map(orig, f);
            assert(map_of(key_view(self.slots@)) =~= Map::<Seq<char>, InstanceEntry>::empty());
        }
        out
    }

    /// Runtime information of every entry that occupies a lifecycle slot.
    pub fn get_runtime_info(&self) -> (r: Vec<(String, InstanceRuntimeInfo)>)
        requires
            self.wf(),
        ensures
            distinct_keys(key_view(r@)),
            map_of(key_view(r@)) == filter_map_map(self@.0, runtime_info_fn()),
    {
        let ghost orig = key_view(self.slots@);
        let ghost f = runtime_info_fn();
        let mut out: Vec<(String, InstanceRuntimeInfo)> = Vec::new();
        let mut i: usize = 0;
        while i < self.slots.len()
            invariant
                i <= self.slots@.len(),
                orig == key_view(self.slots@),
                key_view(out@) == filter_map_seq(orig.take(i as int), f),
                f == runtime_info_fn(),
            decreases self.slots.len() - i,
        {
            proof {
                assert(orig[i as int] == (self.slots@[i as int].0@, self.slots@[i as int].1));
                lemma_filter_map_step(orig, f, i as int);
            }
            let info = match &self.slots[i].1.slot {
                Some(Slot::Starting) => Some(InstanceRuntimeInfo::Starting),
                Some(Slot::Live(p)) => Some(
                    InstanceRuntimeInfo::Live { port: p.port, dashboard_enabled: p.dashboard_enabled },
                ),
                Some(Slot::Stopping(p)) => Some(
                    InstanceRuntimeInfo::Stopping {
                        port: p.port,
                        dashboard_enabled: p.dashboard_enabled,
                    },
                ),
                None => None,
            };
            assert(info == f(self.slots@[i as int].1));
            match info {
                Some(x) => {
                    let ghost out_before = out@;
                    let key = self.slots[i].0.clone();
                    out.push((key, x));
                    proof {
                        assert(key_view(out@) =~= key_view(out_before).push(
                            (self.slots@[i as int].0@, x),
                        ));
                    }
                },
                None => {},
            }
            i = i + 1;
        }
        proof {
            assert(orig.take(i as int) =~= orig);
            lemma_filter_map(orig, f);
        }
        out
    }

    /// Ids of the instances that are live or starting, each once.
    pub fn get_active_ids(&self) -> (r: Vec<String>)
        requires
            self.wf(),
        ensures
            distinct_keys(unit_view(r@)),
            map_of(unit_view(r@)).dom() == filter_map_map(self@.0, active_fn()).dom(),
    {
        let ghost orig = key_view(self.slots@);
        let ghost f = active_fn();
        let mut out: Vec<String> = Vec::new();
        let mut i: usize = 0;
        while i < self.slots.len()
            invariant
                i <= self.slots@.len(),
                orig == key_view(self.slots@),
                unit_view(out@) == filter_map_seq(orig.take(i as int), f),
                f == active_fn(),
            decreases self.slots.len() - i,
        {
            proof {
                assert(orig[i as int] == (self.slots@[i as int].0@, self.slots@[i as int].1));
                lemma_filter_map_step(orig, f, i as int);
            }
            let active = match &self.slots[i].1.slot {
                Some(Slot::Starting) => true,
                Some(Slot::Live(_)) => true,
                _ => false,
            };
            assert(active == f(self.slots@[i as int].1) is Some);
            if active {
                let ghost out_before = out@;
                out.push(self.slots[i].0.clone());
                proof {
                    assert(unit_view(out@) =~= unit_view(out_before).push(
                        (self.slots@[i as int].0@, ()),
                    ));
                }
            }
            i = i + 1;
        }
        proof {
            assert(orig.take(i as int) =~= orig);
            lemma_filter_map(orig, f);
        }
        out
    }

    /// Snapshot of every live instance for the monitor; `None` once the
    /// application is shutting down.
    pub fn snapshot_live(&self) -> (r: Option<Vec<LiveSnapshot>>)
        requires
            self.wf(),
        ensures
            r is None <==> self@.1,
            r matches Some(v) ==> distinct_keys(snap_view(v@)) && map_of(snap_view(v@))
                == filter_map_map(self@.0, live_fn()),
    {
        if self.shutting_down {
            return None;
        }
        let ghost orig = key_view(self.slots@);
        let ghost f = live_fn();
        let mut out: Vec<LiveSnapshot> = Vec::new();
        let mut i: usize = 0;
        while i < self.slots.len()
            invariant
                i <= self.slots@.len(),
                orig == key_view(self.slots@),
                snap_view(out@) == filter_map_seq(orig.take(i as int), f),
                f == live_fn(),
            decreases self.slots.len() - i,
        {
            proof {
                assert(orig[i as int] == (self.slots@[i as int].0@, self.slots@[i as int].1));
                lemma_filter_map_step(orig, f, i as int);
            }
            match &self.slots[i].1.slot {
                Some(Slot::Live(p)) => {
                    let ghost out_before = out@;
                    let snap = LiveSnapshot {
                        id: self.slots[i].0.clone(),
                        port: p.port,
                        pid: p.pid,
                        executable_path: p.executable_path.clone(),
                        dashboard_enabled: p.dashboard_enabled,
                        alive_failure_count: p.alive_failure_count,
                        next_alive_check_at: p.next_alive_check_at,
                    };
                    out.push(snap);
                    proof {
                        assert(snap_view(out@) =~= snap_view(out_before).push(
                            (self.slots@[i as int].0@, *p),
                        ));
                    }
                },
                _ => {},
            }
            i = i + 1;
        }
        proof {
            assert(orig.take(i as int) =~= orig);
            lemma_filter_map(orig, f);
        }
        Some(out)
    }

    /// Apply monitor outcomes in order and return the events to emit. Only
    /// entries that are still `Live` are touched.
    pub fn apply_outcomes(&mut self, outcomes: &Vec<MonitorOutcome>) -> (r: Vec<(String, InstanceState)>)
        requires
            old(self).wf(),
        ensures
            final(self).wf(),
            final(self)@.1 == old(self)@.1,
            final(self)@.0 == apply_all(old(self)@.0, outcomes@),
            key_view(r@) == events_all(old(self)@.0, outcomes@),
    {
        let ghost m0 = self@.0;
        let mut events: Vec<(String, InstanceState)> = Vec::new();
        let mut j: usize = 0;
        while j < outcomes.len()
            invariant
                j <= outcomes@.len(),
                self.wf(),
                self@.1 == old(self)@.1,
                m0 == old(self)@.0,
                self@.0 == apply_all(m0, outcomes@.take(j as int)),
                key_view(events@) == events_all(m0, outcomes@.take(j as int)),
            decreases outcomes.len() - j,
        {
            proof {
                assert(outcomes@.take(j as int + 1).drop_last() =~= outcomes@.take(j as int));
                assert(outcomes@.take(j as int + 1).last() == outcomes@[j as int]);
            }
            let ghost before = self@.0;
            let ghost ev_before = events@;
            match &outcomes[j] {
                MonitorOutcome::Dead { id } => {
                    let live = match self.find(id.as_str()) {
                        Some(i) => match &self.slots[i].1.slot {
                            Some(Slot::Live(_)) => true,
                            _ => false,
                        },
                        None => false,
                    };
                    if live {
                        self.remove(id.as_str());
                        events.push((id.clone(), InstanceState::Stopped));
                        proof {
                            assert(key_view(events@) =~= key_view(ev_before).push(
                                (id@, InstanceState::Stopped),
                            ));
                        }
                    } else {
                        assert(key_view(events@) =~= key_view(ev_before));
                    }
                },
                MonitorOutcome::Alive { id, alive_failure_count, next_alive_check_at, new_pid } => {
                    match self.find(id.as_str()) {
                        Some(i) => {
                            let is_live = match &self.slots[i].1.slot {
                                Some(Slot::Live(_)) => true,
                                _ => false,
                            };
                            if is_live {
                                let (key, entry) = self.take_at(i);
                                match entry.slot {
                                    Some(Slot::Live(p)) => {
                                        let pid = match new_pid {
                                            Some(n) => *n,
                                            None => p.pid,
                                        };
                                        let q = InstanceProcess {
                                            pid,
                                            executable_path: p.executable_path,
                                            port: p.port,
                                            dashboard_enabled: p.dashboard_enabled,
                                            alive_failure_count: *alive_failure_count,
                                            next_alive_check_at: *next_alive_check_at,
                                        };
                                        self.put_new(
                                            key,
                                            InstanceEntry {
                                                slot: Some(Slot::Live(q)),
                                                guarded: entry.guarded,
                                            },
                                        );
                                        proof {
                                            assert(self@.0 =~= apply_one(before, outcomes@[j as int]));
                                        }
                                    },
                                    _ => {
                                        proof {
                                            assert(false);
                                        }
                                    },
                                }
                            }
                        },
                        None => {},
                    }
                    assert(key_view(events@) =~= key_view(ev_before));
                },
            }
            j = j + 1;
        }
        proof {
            assert(outcomes@.take(j as int) =~= outcomes@);
        }
        events
    }

    /// Port of a live instance; `None` unless the instance is `Live`.
    pub fn get_port(&self, id: &str) -> (r: Option<u16>)
        requires
            self.wf(),
        ensures
            r == port_of(self@.0, id@),
    {
        match self.find(id) {
            Some(i) => match &self.slots[i].1.slot {
                Some(Slot::Live(p)) => Some(p.port),
                _ => None,
            },
            None => None,
        }
    }
}

/// Proof that `guard` was issued for one instance; returned to release it.
#[derive(Debug)]
pub struct InstanceGuard {
    instance_id: String,
}

impl View for InstanceGuard {
    type V = Seq<char>;

    closed spec fn view(&self) -> Seq<char> {
        self.instance_id@
    }
}

impl InstanceGuard {
    pub fn instance_id(&self) -> (r: &str)
        ensures
            r@ == self@,
    {
        self.instance_id.as_str()
    }
}

pub open spec fn guard_entry() -> InstanceEntry {
    InstanceEntry { slot: None, guarded: true }
}

pub open spec fn starting_entry() -> InstanceEntry {
    InstanceEntry { slot: Some(Slot::Starting), guarded: false }
}

fn starting_exec() -> (e: InstanceEntry)
    ensures
        e == starting_entry(),
{
    InstanceEntry { slot: Some(Slot::Starting), guarded: false }
}

pub open spec fn stopping_of(p: InstanceProcess) -> InstanceEntry {
    InstanceEntry { slot: Some(Slot::Stopping(p)), guarded: false }
}

/// The process record of a freshly launched instance.
pub open spec fn process_of(l: LaunchResult) -> InstanceProcess {
    InstanceProcess {
        pid: l.pid,
        executable_path: l.executable_path,
        port: l.port,
        dashboard_enabled: l.dashboard_enabled,
        alive_failure_count: 0,
        next_alive_check_at: None,
    }
}

/// Replaces the slot of `id`'s entry (keeping its guard flag), if there is one.
pub open spec fn set_slot(m: Map<Seq<char>, InstanceEntry>, id: Seq<char>, slot: Option<Slot>) -> Map<
    Seq<char>,
    InstanceEntry,
> {
    if m.dom().contains(id) {
        m.insert(id, InstanceEntry { slot, guarded: m[id].guarded })
    } else {
        m
    }
}

/// The state after releasing a guard on `id`: a guard-only entry is dropped.
pub open spec fn release_effect(m: Map<Seq<char>, InstanceEntry>, id: Seq<char>) -> Map<
    Seq<char>,
    InstanceEntry,
> {
    if m.dom().contains(id) && m[id] == guard_entry() {
        m.remove(id)
    } else {
        m
    }
}

/// The error with which a start or a guard on `id` is refused.
pub open spec fn admission_error(s: (Map<Seq<char>, InstanceEntry>, bool), id: Seq<char>, e: AppError) -> bool {
    if s.1 {
        is_process_error(e, shutting_down_msg(id))
    } else if s.0[id].guarded {
        is_process_error(e, busy_msg(id))
    } else {
        is_running_error(e)
    }
}

/// `prepare_stop` answers "not running" for `id`.
pub open spec fn not_running(m: Map<Seq<char>, InstanceEntry>, id: Seq<char>) -> bool {
    !m.dom().contains(id) || (!m[id].guarded && m[id].slot is None)
}

/// The error with which a stop of `id` is refused (other than "not running").
pub open spec fn stop_refusal(m: Map<Seq<char>, InstanceEntry>, id: Seq<char>, e: AppError) -> bool {
    if m[id].guarded {
        is_process_error(e, busy_msg(id))
    } else {
        match m[id].slot {
            Some(Slot::Stopping(_)) => is_process_error(e, already_stopping_msg(id)),
            Some(Slot::Starting) => is_process_error(e, still_starting_msg(id)),
            _ => false,
        }
    }
}

/// The process of an entry the exit handler must kill.
pub open spec fn killable_fn() -> spec_fn(InstanceEntry) -> Option<InstanceProcess> {
    |e: InstanceEntry| killable(e)
}

pub open spec fn killable(e: InstanceEntry) -> Option<InstanceProcess> {
    match e.slot {
        Some(Slot::Live(p)) => Some(p),
        Some(Slot::Stopping(p)) => Some(p),
        _ => None,
    }
}

/// What `get_runtime_info` reports for an entry.
pub open spec fn runtime_info_fn() -> spec_fn(InstanceEntry) -> Option<InstanceRuntimeInfo> {
    |e: InstanceEntry| runtime_info_of(e)
}

pub open spec fn runtime_info_of(e: InstanceEntry) -> Option<InstanceRuntimeInfo> {
    match e.slot {
        Some(Slot::Starting) => Some(InstanceRuntimeInfo::Starting),
        Some(Slot::Live(p)) => Some(
            InstanceRuntimeInfo::Live { port: p.port, dashboard_enabled: p.dashboard_enabled },
        ),
        Some(Slot::Stopping(p)) => Some(
            InstanceRuntimeInfo::Stopping { port: p.port, dashboard_enabled: p.dashboard_enabled },
        ),
        None => None,
    }
}

/// Marks the entries whose ids are persisted as in progress (live or starting).
pub open spec fn active_fn() -> spec_fn(InstanceEntry) -> Option<()> {
    |e: InstanceEntry| active_mark(e)
}

pub open spec fn active_mark(e: InstanceEntry) -> Option<()> {
    match e.slot {
        Some(Slot::Starting) => Some(()),
        Some(Slot::Live(_)) => Some(()),
        _ => None,
    }
}

pub open spec fn unit_view(s: Seq<String>) -> Seq<(Seq<char>, ())> {
    s.map_values(|k: String| (k@, ()))
}

pub open spec fn live_fn() -> spec_fn(InstanceEntry) -> Option<InstanceProcess> {
    |e: InstanceEntry| live_process(e)
}

pub open spec fn live_process(e: InstanceEntry) -> Option<InstanceProcess> {
    match e.slot {
        Some(Slot::Live(p)) => Some(p),
        _ => None,
    }
}

/// The snapshots keyed by instance id, each read back as a process record.
pub open spec fn snap_view(v: Seq<LiveSnapshot>) -> Seq<(Seq<char>, InstanceProcess)> {
    v.map_values(
        |s: LiveSnapshot|
            (
                s.id@,
                InstanceProcess {
                    pid: s.pid,
                    executable_path: s.executable_path,
                    port: s.port,
                    dashboard_enabled: s.dashboard_enabled,
                    alive_failure_count: s.alive_failure_count,
                    next_alive_check_at: s.next_alive_check_at,
                },
            ),
    )
}

pub open spec fn outcome_id(o: MonitorOutcome) -> Seq<char> {
    match o {
        MonitorOutcome::Dead { id } => id@,
        MonitorOutcome::Alive { id, .. } => id@,
    }
}

/// The effect of one outcome: a dead `Live` entry is removed; a live one gets
/// its probe counters (and possibly a new pid); other entries are untouched.
pub open spec fn apply_one(m: Map<Seq<char>, InstanceEntry>, o: MonitorOutcome) -> Map<
    Seq<char>,
    InstanceEntry,
> {
    let id = outcome_id(o);
    if !m.dom().contains(id) {
        m
    } else {
        match m[id].slot {
            Some(Slot::Live(p)) => match o {
                MonitorOutcome::Dead { .. } => m.remove(id),
                MonitorOutcome::Alive { alive_failure_count, next_alive_check_at, new_pid, .. } => {
                    let q = InstanceProcess {
                        pid: match new_pid {
                            Some(n) => n,
                            None => p.pid,
                        },
                        alive_failure_count,
                        next_alive_check_at,
                        ..p
                    };
                    m.insert(id, InstanceEntry { slot: Some(Slot::Live(q)), guarded: m[id].guarded })
                },
            },
            _ => m,
        }
    }
}

/// The event (if any) that applying `o` to `m` emits.
pub open spec fn event_of(m: Map<Seq<char>, InstanceEntry>, o: MonitorOutcome) -> Seq<
    (Seq<char>, InstanceState),
> {
    let id = outcome_id(o);
    if o is Dead && m.dom().contains(id) && m[id].slot matches Some(Slot::Live(_)) {
        seq![(id, InstanceState::Stopped)]
    } else {
        Seq::empty()
    }
}

pub open spec fn apply_all(m: Map<Seq<char>, InstanceEntry>, os: Seq<MonitorOutcome>) -> Map<
    Seq<char>,
    InstanceEntry,
>
    decreases os.len(),
{
    if os.len() == 0 {
        m
    } else {
        apply_one(apply_all(m, os.drop_last()), os.last())
    }
}

pub open spec fn events_all(m: Map<Seq<char>, InstanceEntry>, os: Seq<MonitorOutcome>) -> Seq<
    (Seq<char>, InstanceState),
>
    decreases os.len(),
{
    if os.len() == 0 {
        Seq::empty()
    } else {
        events_all(m, os.drop_last()) + event_of(apply_all(m, os.drop_last()), os.last())
    }
}

pub open spec fn port_of(m: Map<Seq<char>, InstanceEntry>, id: Seq<char>) -> Option<u16> {
    if m.dom().contains(id) {
        match m[id].slot {
            Some(Slot::Live(p)) => Some(p.port),
            _ => None,
        }
    } else {
        None
    }
}

/// The state after reverting a stop of `id`: a `Stopping` slot becomes `Live` again.
pub open spec fn revert_effect(m: Map<Seq<char>, InstanceEntry>, id: Seq<char>) -> Map<
    Seq<char>,
    InstanceEntry,
> {
    if m.dom().contains(id) {
        match m[id].slot {
            Some(Slot::Stopping(p)) => m.insert(
                id,
                InstanceEntry { slot: Some(Slot::Live(p)), guarded: m[id].guarded },
            ),
            _ => m,
        }
    } else {
        m
    }
}

/// Acquiring a guard on an instance and releasing it leaves the state as it was.
pub proof fn law_guard_round_trip(m: Map<Seq<char>, InstanceEntry>, id: Seq<char>)
    requires
        !m.dom().contains(id),
    ensures
        release_effect(m.insert(id, guard_entry()), id) == m,
{
    assert(release_effect(m.insert(id, guard_entry()), id) =~= m);
}

/// A stop whose shutdown IO fails is undone: preparing the stop of a live
/// instance and reverting it gives back the state before.
pub proof fn law_failed_stop_reverts(m: Map<Seq<char>, InstanceEntry>, id: Seq<char>, p: InstanceProcess)
    requires
        m.dom().contains(id),
        m[id] == (InstanceEntry { slot: Some(Slot::Live(p)), guarded: false }),
    ensures
        revert_effect(m.insert(id, stopping_of(p)), id) == m,
{
    assert(revert_effect(m.insert(id, stopping_of(p)), id) =~= m);
}

/// A start that reaches the launch stage leaves the instance live on the
/// launched port; a failed launch leaves the state as it was before the start.
pub proof fn law_start_outcome(m: Map<Seq<char>, InstanceEntry>, id: Seq<char>, l: LaunchResult)
    requires
        !m.dom().contains(id),
    ensures
        port_of(set_slot(m.insert(id, starting_entry()), id, Some(Slot::Live(process_of(l)))), id)
            == Some(l.port),
        m.insert(id, starting_entry()).remove(id) == m,
{
    assert(m.insert(id, starting_entry()).remove(id) =~= m);
}

/// The monitor only ever changes `Live` entries: every other entry is kept
/// as it is, and no entry is ever added.
pub proof fn law_monitor_touches_only_live(
    m: Map<Seq<char>, InstanceEntry>,
    os: Seq<MonitorOutcome>,
    k: Seq<char>,
)
    ensures
        apply_all(m, os).dom().contains(k) ==> m.dom().contains(k),
        (m.dom().contains(k) && !(m[k].slot matches Some(Slot::Live(_)))) ==> (apply_all(
            m,
            os,
        ).dom().contains(k) && apply_all(m, os)[k] == m[k]),
    decreases os.len(),
{
    if os.len() > 0 {
        law_monitor_touches_only_live(m, os.drop_last(), k);
    }
}

/// Once every entry has been drained for shutdown, monitor outcomes change
/// nothing and emit no event.
pub proof fn law_monitor_idle_after_drain(os: Seq<MonitorOutcome>)
    ensures
        apply_all(Map::empty(), os) == Map::<Seq<char>, InstanceEntry>::empty(),
        events_all(Map::empty(), os) == Seq::<(Seq<char>, InstanceState)>::empty(),
    decreases os.len(),
{
    if os.len() > 0 {
        law_monitor_idle_after_drain(os.drop_last());
        assert(events_all(Map::empty(), os) =~= Seq::<(Seq<char>, InstanceState)>::empty());
    }
}

/// A port is reported exactly for the instances whose runtime info is `Live`
/// with that port.
pub proof fn law_port_matches_runtime_info(m: Map<Seq<char>, InstanceEntry>, id: Seq<char>, port: u16)
    ensures
        port_of(m, id) == Some(port) <==> (filter_map_map(m, runtime_info_fn()).dom().contains(id)
            && (filter_map_map(m, runtime_info_fn())[id] matches InstanceRuntimeInfo::Live {
            port: q,
            ..
        } && q == port)),
{
}

} // verus!
