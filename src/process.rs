//! Process management syscalls.
use vstd::prelude::*;

use crate::config::MAX_SYSCALL_NUM;
use crate::task::{
    after_slot, as_index, exited, handed_to, is_lifecycle_step, lifecycle_steps, next_ready, timed, with_status,
    TaskManager, TaskStatus,
};

verus! {

/// Microseconds in one second.
pub const USEC_PER_SEC: usize = 1_000_000;

/// A point in time since boot, split into seconds and microseconds.
#[derive(Debug, Clone, Copy, PartialEq, Eq, Structural)]
pub struct TimeVal {
    /// Whole seconds.
    pub sec: usize,
    /// Microseconds within the second, below one million.
    pub usec: usize,
}

/// The split of a microsecond count into whole seconds and the rest.
pub open spec fn time_val_of(us: usize) -> TimeVal {
    TimeVal { sec: us / USEC_PER_SEC, usec: us % USEC_PER_SEC }
}

/// Lexicographic order on time values: seconds first, then microseconds.
pub open spec fn time_val_le(a: TimeVal, b: TimeVal) -> bool {
    a.sec < b.sec || (a.sec == b.sec && a.usec <= b.usec)
}

impl TimeVal {
    /// Splits a microsecond count into seconds and microseconds.
    pub fn from_us(us: usize) -> (r: TimeVal)
        ensures
            r == time_val_of(us),
            r.usec < USEC_PER_SEC,
    {
        TimeVal { sec: us / USEC_PER_SEC, usec: us % USEC_PER_SEC }
    }
}

/// A later clock reading never gives an earlier time value.
pub proof fn lemma_time_val_monotonic(t1: usize, t2: usize)
    requires
        t1 <= t2,
    ensures
        time_val_le(time_val_of(t1), time_val_of(t2)),
{
    let a = t1 / USEC_PER_SEC;
    let b = t2 / USEC_PER_SEC;
    assert(a <= b) by (nonlinear_arith)
        requires t1 <= t2, a == t1 / 1_000_000usize, b == t2 / 1_000_000usize;
    if a == b {
        assert(t1 % USEC_PER_SEC <= t2 % USEC_PER_SEC) by (nonlinear_arith)
            requires
                t1 <= t2,
                t1 / 1_000_000usize == t2 / 1_000_000usize,
        ;
    }
}

/// What a task has done so far: the snapshot handed out by `sys_task_info`.
#[derive(Clone, Copy)]
pub struct TaskInfo {
    /// Where the task stands in its life cycle.
    pub status: TaskStatus,
    /// How often the task has made each syscall, indexed by syscall id.
    pub syscall_times: [u32; MAX_SYSCALL_NUM],
    /// Milliseconds since the task was first scheduled, as last accounted.
    pub time: usize,
}

impl TaskInfo {
    /// The record of a task that has never run.
    pub fn new() -> (r: TaskInfo)
        ensures
            r.status == TaskStatus::UnInit,
            forall|i: int| 0 <= i < MAX_SYSCALL_NUM ==> r.syscall_times@[i] == 0,
            r.time == 0,
    {
        TaskInfo { status: TaskStatus::UnInit, syscall_times: [0u32; MAX_SYSCALL_NUM], time: 0 }
    }
}

/// Writes the clock reading `now_us` (microseconds since boot) to `ts`,
/// split into seconds and microseconds. The time zone argument is accepted
/// and ignored.
pub fn sys_get_time(now_us: usize, ts: &mut TimeVal, _tz: usize) -> (r: isize)
    ensures
        *final(ts) == time_val_of(now_us),
        r == 0,
{
    *ts = TimeVal::from_us(now_us);
    0
}

/// The current task exits with `exit_code` and the CPU goes to the next
/// `Ready` task. The exiting task is `Exited` afterwards and is never
/// dispatched again, so control does not come back to it. Returns the task
/// that runs next, or `None` when no task is left to run.
pub fn sys_exit(m: &mut TaskManager, exit_code: i32, now_us: usize) -> (r: Option<usize>)
    requires
        old(m).wf(),
        old(m).current() is Some,
    ensures
        ({
            let c = old(m).current().unwrap() as int;
            let ended = old(m).tasks().update(c, exited(old(m).tasks()[c], exit_code));
            let next = next_ready(ended, after_slot(c, ended.len() as int));
            &&& r == as_index(next)
            &&& final(m).tasks() == handed_to(ended, next, now_us)
            &&& final(m).tasks()[c].task_info.status == TaskStatus::Exited
            &&& final(m).tasks()[c].exit_code == Some(exit_code)
        }),
        final(m).current() == r,
        r != old(m).current(),
        final(m).wf(),
        lifecycle_steps(old(m).tasks(), final(m).tasks()),
{
    m.exit_current_and_run_next(exit_code, now_us)
}

/// The current task gives up the CPU. Its running time is first accounted up
/// to the clock reading `now_us`; then it becomes `Ready` and the next
/// `Ready` task in round-robin order after it runs (possibly itself).
/// Syscall counts are kept. Returns 0.
pub fn sys_yield(m: &mut TaskManager, now_us: usize) -> (r: isize)
    requires
        old(m).wf(),
        old(m).current() is Some,
    ensures
        r == 0,
        ({
            let c = old(m).current().unwrap() as int;
            let accounted = old(m).tasks().update(c, timed(old(m).tasks()[c], now_us));
            let yielded = accounted.update(c, with_status(accounted[c], TaskStatus::Ready));
            let next = next_ready(yielded, after_slot(c, yielded.len() as int));
            &&& next is Some
            &&& final(m).current() == as_index(next)
            &&& final(m).tasks() == handed_to(yielded, next, now_us)
        }),
        final(m).tasks().len() == old(m).tasks().len(),
        forall|i: int|
            0 <= i < old(m).tasks().len() ==> (#[trigger] final(m).tasks()[i]).task_info.syscall_times
                == old(m).tasks()[i].task_info.syscall_times,
        final(m).wf(),
        lifecycle_steps(old(m).tasks(), final(m).tasks()),
{
    m.account_current_time(now_us);
    m.suspend_current_and_run_next(now_us);
    0
}

/// Writes a snapshot of the current task's record to `ti`, with its status
/// `Running`. A missing output location (`None`) is refused with -1 and
/// nothing changes. Returns 0 otherwise. The task pool is not changed.
pub fn sys_task_info(m: &mut TaskManager, ti: Option<&mut TaskInfo>) -> (r: isize)
    requires
        old(m).wf(),
        ti is Some ==> old(m).current() is Some,
    ensures
        ti is None ==> r == -1,
        ti matches Some(out) ==> {
            &&& r == 0
            &&& *final(out) == old(m).tasks()[old(m).current().unwrap() as int].task_info
            &&& final(out).status == TaskStatus::Running
        },
        final(m).tasks() == old(m).tasks(),
        final(m).current() == old(m).current(),
        final(m).wf(),
{
    match ti {
        None => -1,
        Some(out) => {
            let c = m.get_current_task_id();
            m.mark_current_running();
            *out = m.task(c).task_info;
            0
        },
    }
}

/// A task that has exited stays `Exited` across any allowed life-cycle move
/// of the pool, and so never holds the CPU again.
pub proof fn lemma_exited_task_never_runs(before: TaskManager, after: TaskManager, id: int)
    requires
        before.wf(),
        after.wf(),
        lifecycle_steps(before.tasks(), after.tasks()),
        0 <= id < before.tasks().len(),
        before.tasks()[id].task_info.status == TaskStatus::Exited,
    ensures
        after.tasks()[id].task_info.status == TaskStatus::Exited,
        after.current() != Some(id as usize),
{
    assert(is_lifecycle_step(before.tasks()[id].task_info.status, after.tasks()[id].task_info.status));
}

} // verus!
