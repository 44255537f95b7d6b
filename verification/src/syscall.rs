//! The entry points that the system-call layer drives: creation of mutexes,
//! semaphores and condition variables, acquisition and release, and the
//! detection switch. Each one does the bookkeeping of its call and tells the
//! caller what to do with the primitive.
use vstd::prelude::*;
use crate::matrix::DdStruct;
use crate::model::SafetyState;
use crate::protocol::Admission;
use crate::registry::{claim_slot, first_free, is_live, slot_is_live, vacate_slot, with_slot};

verus! {

/// The result of a call that was refused because granting it could end in a
/// deadlock.
pub const DEADLOCK_REFUSED: isize = -0xdead;

/// The result of a call that names no live mutex, semaphore or condition
/// variable.
pub const INVALID_HANDLE: isize = -1;

/// The result of a call whose argument is not one of the values it takes.
pub const INVALID_ARGUMENT: isize = -1;

/// The kind of a mutex.
#[derive(Clone, Copy, Debug, PartialEq, Eq, Structural)]
pub enum MutexKind {
    /// Waiters spin.
    Spin,
    /// Waiters sleep.
    Blocking,
}

/// What the caller does next.
#[derive(Clone, Copy, Debug, PartialEq, Eq, Structural)]
pub enum Next {
    /// The call is over, with this result.
    Return(isize),
    /// The units are the caller's: take them from the primitive and return 0.
    Take,
    /// The units are not free: wait on the primitive, then settle the grant.
    Wait,
}

/// The synchronisation state of one process: its tables of primitives, one
/// safety-state matrix for mutexes and one for semaphores, and the detection
/// switch.
pub struct ProcessSync {
    /// The mutexes by handle; an empty slot is free for reuse.
    pub mutex_list: Vec<Option<MutexKind>>,
    /// The semaphores by handle, each with its initial count.
    pub semaphore_list: Vec<Option<usize>>,
    /// The condition variables by handle.
    pub condvar_list: Vec<Option<()>>,
    /// Bookkeeping for the mutexes: one column per slot of `mutex_list`.
    pub mutex_dd: DdStruct,
    /// Bookkeeping for the semaphores: one column per slot of `semaphore_list`.
    pub semaphore_dd: DdStruct,
    /// Whether a request that leaves the state unsafe is refused.
    pub deadlock_detect: bool,
}

/// The next step after a request that fared as `a`.
pub open spec fn next_after(a: Admission) -> Next {
    match a {
        Admission::Granted => Next::Take,
        Admission::Deferred => Next::Wait,
        Admission::Refused => Next::Return(DEADLOCK_REFUSED),
    }
}

/// Task `t` can ask for one more unit of resource `r`, and receive it where
/// one is free, without a counter leaving its range.
pub open spec fn has_room(s: SafetyState, t: int, r: int) -> bool {
    &&& s.need[t][r] + 1 <= usize::MAX
    &&& s.work[r] >= 1 ==> s.allocation[t][r] + 1 <= usize::MAX
}

impl ProcessSync {
    /// The tables and the detection switch are those of `other`.
    pub open spec fn same_tables(&self, other: &ProcessSync) -> bool {
        &&& self.mutex_list == other.mutex_list
        &&& self.semaphore_list == other.semaphore_list
        &&& self.condvar_list == other.condvar_list
        &&& self.deadlock_detect == other.deadlock_detect
    }

    /// Both matrices are well formed and have one column per slot of their table.
    pub open spec fn wf(&self) -> bool {
        &&& self.mutex_dd.wf()
        &&& self.semaphore_dd.wf()
        &&& self.mutex_dd@.resource_count() == self.mutex_list@.len()
        &&& self.semaphore_dd@.resource_count() == self.semaphore_list@.len()
    }

    /// The state of a new process: no primitives, one task, detection off.
    pub fn new() -> (process: ProcessSync)
        ensures
            process.wf(),
            process.mutex_list@.len() == 0,
            process.semaphore_list@.len() == 0,
            process.condvar_list@.len() == 0,
            process.mutex_dd@ == SafetyState::empty(),
            process.semaphore_dd@ == SafetyState::empty(),
            !process.deadlock_detect,
    {
        ProcessSync {
            mutex_list: Vec::new(),
            semaphore_list: Vec::new(),
            condvar_list: Vec::new(),
            mutex_dd: DdStruct::new(),
            semaphore_dd: DdStruct::new(),
            deadlock_detect: false,
        }
    }
}

/// The time at which a task that asks at `now_ms` to sleep for `ms`
/// milliseconds is woken.
pub fn sys_sleep(now_ms: usize, ms: usize) -> (expire_ms: usize)
    requires
        now_ms + ms <= usize::MAX,
    ensures
        expire_ms == now_ms + ms,
{
    now_ms + ms
}

/// Creates a mutex in the lowest free slot and registers it as a resource of
/// one unit. Returns its handle.
pub fn sys_mutex_create(process: &mut ProcessSync, blocking: bool) -> (id: isize)
    requires
        old(process).wf(),
        old(process).mutex_list@.len() < isize::MAX,
    ensures
        final(process).wf(),
        id == first_free(old(process).mutex_list@),
        final(process).mutex_list@ == with_slot(
            old(process).mutex_list@,
            id as int,
            if blocking { MutexKind::Blocking } else { MutexKind::Spin },
        ),
        final(process).mutex_dd@ == old(process).mutex_dd@.add_resource(id as nat, 1),
        final(process).semaphore_list == old(process).semaphore_list,
        final(process).condvar_list == old(process).condvar_list,
        final(process).semaphore_dd == old(process).semaphore_dd,
        final(process).deadlock_detect == old(process).deadlock_detect,
{
    let kind = if !blocking { MutexKind::Spin } else { MutexKind::Blocking };
    proof {
        crate::registry::lemma_first_free(process.mutex_list@);
    }
    let id = claim_slot(&mut process.mutex_list, kind);
    process.mutex_dd.add_resource(id, 1);
    id as isize
}

/// Creates a semaphore of `res_count` units in the lowest free slot and
/// registers it as a resource. Returns its handle.
pub fn sys_semaphore_create(process: &mut ProcessSync, res_count: usize) -> (id: isize)
    requires
        old(process).wf(),
        old(process).semaphore_list@.len() < isize::MAX,
        res_count <= isize::MAX,
    ensures
        final(process).wf(),
        id == first_free(old(process).semaphore_list@),
        final(process).semaphore_list@ == with_slot(old(process).semaphore_list@, id as int, res_count),
        final(process).semaphore_dd@ == old(process).semaphore_dd@.add_resource(id as nat, res_count as int),
        final(process).mutex_list == old(process).mutex_list,
        final(process).condvar_list == old(process).condvar_list,
        final(process).mutex_dd == old(process).mutex_dd,
        final(process).deadlock_detect == old(process).deadlock_detect,
{
    proof {
        crate::registry::lemma_first_free(process.semaphore_list@);
    }
    let id = claim_slot(&mut process.semaphore_list, res_count);
    process.semaphore_dd.add_resource(id, res_count);
    id as isize
}

/// Creates a condition variable in the lowest free slot. Returns its handle.
pub fn sys_condvar_create(process: &mut ProcessSync) -> (id: isize)
    requires
        old(process).condvar_list@.len() < isize::MAX,
    ensures
        id == first_free(old(process).condvar_list@),
        final(process).condvar_list@ == with_slot(old(process).condvar_list@, id as int, ()),
        final(process).mutex_list == old(process).mutex_list,
        final(process).semaphore_list == old(process).semaphore_list,
        final(process).mutex_dd == old(process).mutex_dd,
        final(process).semaphore_dd == old(process).semaphore_dd,
        final(process).deadlock_detect == old(process).deadlock_detect,
{
    proof {
        crate::registry::lemma_first_free(process.condvar_list@);
    }
    let id = claim_slot(&mut process.condvar_list, ());
    id as isize
}

/// Destroys mutex `mutex_id`: its slot is empty and free for the next mutex,
/// and its column in the matrix is zero.
pub fn mutex_destroy(process: &mut ProcessSync, mutex_id: usize) -> (r: isize)
    requires
        old(process).wf(),
    ensures
        final(process).wf(),
        final(process).semaphore_list == old(process).semaphore_list,
        final(process).condvar_list == old(process).condvar_list,
        final(process).semaphore_dd == old(process).semaphore_dd,
        final(process).deadlock_detect == old(process).deadlock_detect,
        is_live(old(process).mutex_list@, mutex_id as int) ==> {
            &&& r == 0
            &&& final(process).mutex_list@ == old(process).mutex_list@.update(mutex_id as int, None)
            &&& final(process).mutex_dd@ == old(process).mutex_dd@.delete_resource(mutex_id as nat)
        },
        !is_live(old(process).mutex_list@, mutex_id as int) ==> {
            &&& r == INVALID_HANDLE
            &&& final(process).mutex_list@ == old(process).mutex_list@
            &&& final(process).mutex_dd@ == old(process).mutex_dd@
        },
{
    if vacate_slot(&mut process.mutex_list, mutex_id).is_none() {
        return INVALID_HANDLE;
    }
    process.mutex_dd.delete_resource(mutex_id);
    0
}

/// Destroys semaphore `sem_id`: its slot is empty and free for the next
/// semaphore, and its column in the matrix is zero.
pub fn semaphore_destroy(process: &mut ProcessSync, sem_id: usize) -> (r: isize)
    requires
        old(process).wf(),
    ensures
        final(process).wf(),
        final(process).mutex_list == old(process).mutex_list,
        final(process).condvar_list == old(process).condvar_list,
        final(process).mutex_dd == old(process).mutex_dd,
        final(process).deadlock_detect == old(process).deadlock_detect,
        is_live(old(process).semaphore_list@, sem_id as int) ==> {
            &&& r == 0
            &&& final(process).semaphore_list@ == old(process).semaphore_list@.update(sem_id as int, None)
            &&& final(process).semaphore_dd@ == old(process).semaphore_dd@.delete_resource(sem_id as nat)
        },
        !is_live(old(process).semaphore_list@, sem_id as int) ==> {
            &&& r == INVALID_HANDLE
            &&& final(process).semaphore_list@ == old(process).semaphore_list@
            &&& final(process).semaphore_dd@ == old(process).semaphore_dd@
        },
{
    if vacate_slot(&mut process.semaphore_list, sem_id).is_none() {
        return INVALID_HANDLE;
    }
    process.semaphore_dd.delete_resource(sem_id);
    0
}

/// Destroys condition variable `condvar_id`: its slot is empty and free for
/// the next one.
pub fn condvar_destroy(process: &mut ProcessSync, condvar_id: usize) -> (r: isize)
    ensures
        final(process).mutex_list == old(process).mutex_list,
        final(process).semaphore_list == old(process).semaphore_list,
        final(process).mutex_dd == old(process).mutex_dd,
        final(process).semaphore_dd == old(process).semaphore_dd,
        final(process).deadlock_detect == old(process).deadlock_detect,
        is_live(old(process).condvar_list@, condvar_id as int) ==> {
            &&& r == 0
            &&& final(process).condvar_list@ == old(process).condvar_list@.update(condvar_id as int, None)
        },
        !is_live(old(process).condvar_list@, condvar_id as int) ==> {
            &&& r == INVALID_HANDLE
            &&& final(process).condvar_list@ == old(process).condvar_list@
        },
{
    if vacate_slot(&mut process.condvar_list, condvar_id).is_none() {
        return INVALID_HANDLE;
    }
    0
}

/// Turns detection on (1) or off (0). Any other value is refused and changes
/// nothing. What is held already is not checked again.
pub fn sys_enable_deadlock_detect(process: &mut ProcessSync, enabled: usize) -> (r: isize)
    ensures
        enabled <= 1 ==> r == 0 && final(process).deadlock_detect == (enabled == 1),
        enabled > 1 ==> r == INVALID_ARGUMENT && final(process).deadlock_detect == old(process).deadlock_detect,
        final(process).mutex_list == old(process).mutex_list,
        final(process).semaphore_list == old(process).semaphore_list,
        final(process).condvar_list == old(process).condvar_list,
        final(process).mutex_dd == old(process).mutex_dd,
        final(process).semaphore_dd == old(process).semaphore_dd,
{
    if enabled != 1 && enabled != 0 {
        return INVALID_ARGUMENT;
    }
    process.deadlock_detect = enabled != 0;
    0
}

/// Asks for one unit and maps how the request fared to the caller's next step.
fn request_one(dd: &mut DdStruct, detect: bool, tid: usize, id: usize) -> (next: Next)
    requires
        old(dd).wf(),
        old(dd)@.has_entry(tid as int, id as int),
        has_room(old(dd)@, tid as int, id as int),
    ensures
        final(dd).wf(),
        next == next_after(old(dd)@.admission(detect, tid as int, id as int, 1)),
        final(dd)@ == old(dd)@.after_acquire(detect, tid as int, id as int, 1),
{
    match dd.acquire(detect, tid, id, 1) {
        Admission::Granted => Next::Take,
        Admission::Deferred => Next::Wait,
        Admission::Refused => Next::Return(DEADLOCK_REFUSED),
    }
}

/// Settles a grant of one unit that came after a wait and gives the call's result.
fn settle_one(dd: &mut DdStruct, detect: bool, tid: usize, id: usize) -> (r: isize)
    requires
        old(dd).wf(),
        old(dd)@.has_entry(tid as int, id as int),
        old(dd)@.need[tid as int][id as int] >= 1,
        old(dd)@.work[id as int] >= 1,
        old(dd)@.allocation[tid as int][id as int] + 1 <= usize::MAX,
    ensures
        final(dd).wf(),
        r == if old(dd)@.grant_stands(detect, tid as int, id as int, 1) { 0 } else { DEADLOCK_REFUSED },
        final(dd)@ == old(dd)@.after_settle(detect, tid as int, id as int, 1),
{
    if dd.settle(detect, tid, id, 1) {
        0
    } else {
        DEADLOCK_REFUSED
    }
}

/// Task `tid` asks for mutex `mutex_id`. On `Take` the caller locks the
/// primitive and returns 0; on `Wait` it blocks on the primitive and then
/// calls `sys_mutex_lock_resume`. With detection off the request is never
/// refused.
pub fn sys_mutex_lock(process: &mut ProcessSync, tid: usize, mutex_id: usize) -> (next: Next)
    requires
        old(process).wf(),
        tid < old(process).mutex_dd@.task_count(),
        is_live(old(process).mutex_list@, mutex_id as int) ==> has_room(
            old(process).mutex_dd@,
            tid as int,
            mutex_id as int,
        ),
    ensures
        final(process).wf(),
        final(process).same_tables(old(process)),
        final(process).semaphore_dd == old(process).semaphore_dd,
        is_live(old(process).mutex_list@, mutex_id as int) ==> {
            &&& next == next_after(
                old(process).mutex_dd@.admission(old(process).deadlock_detect, tid as int, mutex_id as int, 1),
            )
            &&& final(process).mutex_dd@ == old(process).mutex_dd@.after_acquire(
                old(process).deadlock_detect,
                tid as int,
                mutex_id as int,
                1,
            )
        },
        !is_live(old(process).mutex_list@, mutex_id as int) ==> {
            &&& next == Next::Return(INVALID_HANDLE)
            &&& final(process).mutex_dd@ == old(process).mutex_dd@
        },
        !old(process).deadlock_detect ==> next != Next::Return(DEADLOCK_REFUSED),
{
    if !slot_is_live(&process.mutex_list, mutex_id) {
        return Next::Return(INVALID_HANDLE);
    }
    let detect = process.deadlock_detect;
    request_one(&mut process.mutex_dd, detect, tid, mutex_id)
}

/// Task `tid` was granted mutex `mutex_id` by the primitive after a wait.
/// Returns 0 where the grant stands. Where detection is on and the grant
/// leaves the state unsafe, the request is dropped, the result is
/// `DEADLOCK_REFUSED`, and the caller unlocks the primitive.
pub fn sys_mutex_lock_resume(process: &mut ProcessSync, tid: usize, mutex_id: usize) -> (r: isize)
    requires
        old(process).wf(),
        tid < old(process).mutex_dd@.task_count(),
        is_live(old(process).mutex_list@, mutex_id as int) ==> {
            &&& old(process).mutex_dd@.need[tid as int][mutex_id as int] >= 1
            &&& old(process).mutex_dd@.work[mutex_id as int] >= 1
            &&& old(process).mutex_dd@.allocation[tid as int][mutex_id as int] + 1 <= usize::MAX
        },
    ensures
        final(process).wf(),
        final(process).same_tables(old(process)),
        final(process).semaphore_dd == old(process).semaphore_dd,
        is_live(old(process).mutex_list@, mutex_id as int) ==> {
            &&& r == if old(process).mutex_dd@.grant_stands(
                old(process).deadlock_detect,
                tid as int,
                mutex_id as int,
                1,
            ) { 0 } else { DEADLOCK_REFUSED }
            &&& final(process).mutex_dd@ == old(process).mutex_dd@.after_settle(
                old(process).deadlock_detect,
                tid as int,
                mutex_id as int,
                1,
            )
        },
        !is_live(old(process).mutex_list@, mutex_id as int) ==> {
            &&& r == INVALID_HANDLE
            &&& final(process).mutex_dd@ == old(process).mutex_dd@
        },
{
    if !slot_is_live(&process.mutex_list, mutex_id) {
        return INVALID_HANDLE;
    }
    let detect = process.deadlock_detect;
    settle_one(&mut process.mutex_dd, detect, tid, mutex_id)
}

/// Task `tid` gives mutex `mutex_id` back. On 0 the caller unlocks the
/// primitive. No safety check is made.
pub fn sys_mutex_unlock(process: &mut ProcessSync, tid: usize, mutex_id: usize) -> (r: isize)
    requires
        old(process).wf(),
        tid < old(process).mutex_dd@.task_count(),
        is_live(old(process).mutex_list@, mutex_id as int) ==> {
            &&& old(process).mutex_dd@.allocation[tid as int][mutex_id as int] >= 1
            &&& old(process).mutex_dd@.work[mutex_id as int] + 1 <= isize::MAX
        },
    ensures
        final(process).wf(),
        final(process).same_tables(old(process)),
        final(process).semaphore_dd == old(process).semaphore_dd,
        is_live(old(process).mutex_list@, mutex_id as int) ==> {
            &&& r == 0
            &&& final(process).mutex_dd@ == old(process).mutex_dd@.release(tid as int, mutex_id as int, 1)
        },
        !is_live(old(process).mutex_list@, mutex_id as int) ==> {
            &&& r == INVALID_HANDLE
            &&& final(process).mutex_dd@ == old(process).mutex_dd@
        },
{
    if !slot_is_live(&process.mutex_list, mutex_id) {
        return INVALID_HANDLE;
    }
    process.mutex_dd.release(tid, mutex_id, 1);
    0
}

/// Task `tid` gives one unit of semaphore `sem_id` back. On 0 the caller
/// raises the primitive. No safety check is made.
pub fn sys_semaphore_up(process: &mut ProcessSync, tid: usize, sem_id: usize) -> (r: isize)
    requires
        old(process).wf(),
        tid < old(process).semaphore_dd@.task_count(),
        is_live(old(process).semaphore_list@, sem_id as int) ==> {
            &&& old(process).semaphore_dd@.allocation[tid as int][sem_id as int] >= 1
            &&& old(process).semaphore_dd@.work[sem_id as int] + 1 <= isize::MAX
        },
    ensures
        final(process).wf(),
        final(process).same_tables(old(process)),
        final(process).mutex_dd == old(process).mutex_dd,
        is_live(old(process).semaphore_list@, sem_id as int) ==> {
            &&& r == 0
            &&& final(process).semaphore_dd@ == old(process).semaphore_dd@.release(tid as int, sem_id as int, 1)
        },
        !is_live(old(process).semaphore_list@, sem_id as int) ==> {
            &&& r == INVALID_HANDLE
            &&& final(process).semaphore_dd@ == old(process).semaphore_dd@
        },
{
    if !slot_is_live(&process.semaphore_list, sem_id) {
        return INVALID_HANDLE;
    }
    process.semaphore_dd.release(tid, sem_id, 1);
    0
}

/// Task `tid` asks for one unit of semaphore `sem_id`. On `Take` the caller
/// lowers the primitive and returns 0; on `Wait` it blocks on the primitive
/// and then calls `sys_semaphore_down_resume`. With detection off the request
/// is never refused.
pub fn sys_semaphore_down(process: &mut ProcessSync, tid: usize, sem_id: usize) -> (next: Next)
    requires
        old(process).wf(),
        tid < old(process).semaphore_dd@.task_count(),
        is_live(old(process).semaphore_list@, sem_id as int) ==> has_room(
            old(process).semaphore_dd@,
            tid as int,
            sem_id as int,
        ),
    ensures
        final(process).wf(),
        final(process).same_tables(old(process)),
        final(process).mutex_dd == old(process).mutex_dd,
        is_live(old(process).semaphore_list@, sem_id as int) ==> {
            &&& next == next_after(
                old(process).semaphore_dd@.admission(old(process).deadlock_detect, tid as int, sem_id as int, 1),
            )
            &&& final(process).semaphore_dd@ == old(process).semaphore_dd@.after_acquire(
                old(process).deadlock_detect,
                tid as int,
                sem_id as int,
                1,
            )
        },
        !is_live(old(process).semaphore_list@, sem_id as int) ==> {
            &&& next == Next::Return(INVALID_HANDLE)
            &&& final(process).semaphore_dd@ == old(process).semaphore_dd@
        },
        !old(process).deadlock_detect ==> next != Next::Return(DEADLOCK_REFUSED),
{
    if !slot_is_live(&process.semaphore_list, sem_id) {
        return Next::Return(INVALID_HANDLE);
    }
    let detect = process.deadlock_detect;
    request_one(&mut process.semaphore_dd, detect, tid, sem_id)
}

/// Task `tid` was granted one unit of semaphore `sem_id` by the primitive
/// after a wait. Returns 0 where the grant stands. Where detection is on and
/// the grant leaves the state unsafe, the request is dropped, the result is
/// `DEADLOCK_REFUSED`, and the caller raises the primitive.
pub fn sys_semaphore_down_resume(process: &mut ProcessSync, tid: usize, sem_id: usize) -> (r: isize)
    requires
        old(process).wf(),
        tid < old(process).semaphore_dd@.task_count(),
        is_live(old(process).semaphore_list@, sem_id as int) ==> {
            &&& old(process).semaphore_dd@.need[tid as int][sem_id as int] >= 1
            &&& old(process).semaphore_dd@.work[sem_id as int] >= 1
            &&& old(process).semaphore_dd@.allocation[tid as int][sem_id as int] + 1 <= usize::MAX
        },
    ensures
        final(process).wf(),
        final(process).same_tables(old(process)),
        final(process).mutex_dd == old(process).mutex_dd,
        is_live(old(process).semaphore_list@, sem_id as int) ==> {
            &&& r == if old(process).semaphore_dd@.grant_stands(
                old(process).deadlock_detect,
                tid as int,
                sem_id as int,
                1,
            ) { 0 } else { DEADLOCK_REFUSED }
            &&& final(process).semaphore_dd@ == old(process).semaphore_dd@.after_settle(
                old(process).deadlock_detect,
                tid as int,
                sem_id as int,
                1,
            )
        },
        !is_live(old(process).semaphore_list@, sem_id as int) ==> {
            &&& r == INVALID_HANDLE
            &&& final(process).semaphore_dd@ == old(process).semaphore_dd@
        },
{
    if !slot_is_live(&process.semaphore_list, sem_id) {
        return INVALID_HANDLE;
    }
    let detect = process.deadlock_detect;
    settle_one(&mut process.semaphore_dd, detect, tid, sem_id)
}

/// Whether `condvar_id` names a condition variable to signal: 0 where it
/// does, and the caller then signals the primitive.
pub fn sys_condvar_signal(process: &ProcessSync, condvar_id: usize) -> (r: isize)
    ensures
        r == if is_live(process.condvar_list@, condvar_id as int) { 0 } else { INVALID_HANDLE },
{
    if slot_is_live(&process.condvar_list, condvar_id) {
        0
    } else {
        INVALID_HANDLE
    }
}

/// Task `tid`, which holds mutex `mutex_id`, is about to sleep on condition
/// variable `condvar_id`. For the time of the sleep the matrix shows the mutex
/// as free and asked for by the task. On 0 the caller waits on the primitive
/// and then calls `sys_condvar_wait_resume`.
pub fn sys_condvar_wait(process: &mut ProcessSync, tid: usize, condvar_id: usize, mutex_id: usize) -> (r: isize)
    requires
        old(process).wf(),
        tid < old(process).mutex_dd@.task_count(),
        is_live(old(process).condvar_list@, condvar_id as int) && is_live(
            old(process).mutex_list@,
            mutex_id as int,
        ) ==> {
            &&& old(process).mutex_dd@.allocation[tid as int][mutex_id as int] >= 1
            &&& old(process).mutex_dd@.need[tid as int][mutex_id as int] + 1 <= usize::MAX
            &&& old(process).mutex_dd@.work[mutex_id as int] + 1 <= isize::MAX
        },
    ensures
        final(process).wf(),
        final(process).same_tables(old(process)),
        final(process).semaphore_dd == old(process).semaphore_dd,
        is_live(old(process).condvar_list@, condvar_id as int) && is_live(
            old(process).mutex_list@,
            mutex_id as int,
        ) ==> {
            &&& r == 0
            &&& final(process).mutex_dd@ == old(process).mutex_dd@.park(tid as int, mutex_id as int)
        },
        !(is_live(old(process).condvar_list@, condvar_id as int) && is_live(
            old(process).mutex_list@,
            mutex_id as int,
        )) ==> {
            &&& r == INVALID_HANDLE
            &&& final(process).mutex_dd@ == old(process).mutex_dd@
        },
{
    if !slot_is_live(&process.condvar_list, condvar_id) || !slot_is_live(&process.mutex_list, mutex_id) {
        return INVALID_HANDLE;
    }
    process.mutex_dd.park(tid, mutex_id);
    0
}

/// Task `tid` was woken from its sleep on a condition variable and has mutex
/// `mutex_id` back: the matrix shows it as the holder again.
pub fn sys_condvar_wait_resume(process: &mut ProcessSync, tid: usize, mutex_id: usize) -> (r: isize)
    requires
        old(process).wf(),
        tid < old(process).mutex_dd@.task_count(),
        is_live(old(process).mutex_list@, mutex_id as int) ==> {
            &&& old(process).mutex_dd@.need[tid as int][mutex_id as int] >= 1
            &&& old(process).mutex_dd@.work[mutex_id as int] >= 1
            &&& old(process).mutex_dd@.allocation[tid as int][mutex_id as int] + 1 <= usize::MAX
        },
    ensures
        final(process).wf(),
        final(process).same_tables(old(process)),
        final(process).semaphore_dd == old(process).semaphore_dd,
        is_live(old(process).mutex_list@, mutex_id as int) ==> {
            &&& r == 0
            &&& final(process).mutex_dd@ == old(process).mutex_dd@.unpark(tid as int, mutex_id as int)
        },
        !is_live(old(process).mutex_list@, mutex_id as int) ==> {
            &&& r == INVALID_HANDLE
            &&& final(process).mutex_dd@ == old(process).mutex_dd@
        },
{
    if !slot_is_live(&process.mutex_list, mutex_id) {
        return INVALID_HANDLE;
    }
    process.mutex_dd.unpark(tid, mutex_id);
    0
}

} // verus!
