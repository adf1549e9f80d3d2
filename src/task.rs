//! Task control blocks and the task manager that owns them.
use vstd::prelude::*;

use crate::config::MAX_SYSCALL_NUM;
use crate::process::TaskInfo;

verus! {

/// Microseconds in one millisecond.
pub const USEC_PER_MSEC: usize = 1000;

/// Where a task stands in its life cycle.
#[derive(Clone, Copy, Debug, PartialEq, Eq, Structural)]
pub enum TaskStatus {
    /// Allocated, never admitted to the pool.
    UnInit,
    /// Eligible to run.
    Ready,
    /// Holds the CPU.
    Running,
    /// Terminated; never runs again.
    Exited,
}

/// The moves the life cycle allows: staying put, admission, dispatch,
/// yielding and exiting.
pub open spec fn is_lifecycle_step(before: TaskStatus, after: TaskStatus) -> bool {
    ||| before == after
    ||| (before == TaskStatus::UnInit && after == TaskStatus::Ready)
    ||| (before == TaskStatus::Ready && after == TaskStatus::Running)
    ||| (before == TaskStatus::Running && after == TaskStatus::Ready)
    ||| (before == TaskStatus::Running && after == TaskStatus::Exited)
}

/// The per-task record owned by the task manager.
#[derive(Clone, Copy)]
pub struct TaskControlBlock {
    /// Status, syscall counts and accounted running time.
    pub task_info: TaskInfo,
    /// Clock reading in milliseconds when the task was first dispatched.
    pub first_run_ms: Option<usize>,
    /// The code the task exited with, once it has exited.
    pub exit_code: Option<i32>,
}

/// `t` with its status replaced by `s`.
pub open spec fn with_status(t: TaskControlBlock, s: TaskStatus) -> TaskControlBlock {
    TaskControlBlock { task_info: TaskInfo { status: s, ..t.task_info }, ..t }
}

/// `t` after it is given the CPU at clock reading `now_us`: it runs, and the
/// first dispatch fixes its start time.
pub open spec fn dispatched(t: TaskControlBlock, now_us: usize) -> TaskControlBlock {
    TaskControlBlock {
        task_info: TaskInfo { status: TaskStatus::Running, ..t.task_info },
        first_run_ms: if t.first_run_ms is None {
            Some((now_us / USEC_PER_MSEC) as usize)
        } else {
            t.first_run_ms
        },
        ..t
    }
}

/// Position `start + k` in a pool of `n` tasks, wrapping once past the end.
pub open spec fn wrap(start: int, k: int, n: int) -> int {
    if start + k < n {
        start + k
    } else {
        start + k - n
    }
}

/// Round-robin scan: the first `Ready` task among positions
/// `start + k, start + k + 1, ...`, wrapping past the end, up to a full turn.
pub open spec fn scan_ready(tasks: Seq<TaskControlBlock>, start: int, k: int) -> Option<int>
    decreases tasks.len() - k,
{
    if k < 0 || k >= tasks.len() {
        None
    } else if tasks[wrap(start, k, tasks.len() as int)].task_info.status == TaskStatus::Ready {
        Some(wrap(start, k, tasks.len() as int))
    } else {
        scan_ready(tasks, start, k + 1)
    }
}

/// The task that receives the CPU next when scanning from `start`.
pub open spec fn next_ready(tasks: Seq<TaskControlBlock>, start: int) -> Option<int> {
    scan_ready(tasks, start, 0)
}

/// A found task is a `Ready` one; finding none means that none of the
/// positions still to scan holds a `Ready` task.
proof fn lemma_scan_ready(tasks: Seq<TaskControlBlock>, start: int, k: int)
    requires
        0 <= start < tasks.len(),
        0 <= k,
    ensures
        scan_ready(tasks, start, k) matches Some(j) ==> 0 <= j < tasks.len()
            && tasks[j].task_info.status == TaskStatus::Ready,
        scan_ready(tasks, start, k) is None ==> forall|m: int|
            k <= m < tasks.len() ==> #[trigger] tasks[wrap(start, m, tasks.len() as int)].task_info.status
                != TaskStatus::Ready,
    decreases tasks.len() - k,
{
    if k < tasks.len() {
        lemma_scan_ready(tasks, start, k + 1);
    }
}

/// A full turn that finds nothing means that no task is `Ready`.
proof fn lemma_next_ready(tasks: Seq<TaskControlBlock>, start: int)
    requires
        0 <= start < tasks.len(),
    ensures
        next_ready(tasks, start) matches Some(j) ==> 0 <= j < tasks.len()
            && tasks[j].task_info.status == TaskStatus::Ready,
        next_ready(tasks, start) is None ==> forall|i: int|
            0 <= i < tasks.len() ==> #[trigger] tasks[i].task_info.status != TaskStatus::Ready,
{
    lemma_scan_ready(tasks, start, 0);
    if next_ready(tasks, start) is None {
        assert forall|i: int| 0 <= i < tasks.len() implies #[trigger] tasks[i].task_info.status
            != TaskStatus::Ready by {
            let n = tasks.len() as int;
            let m = if i >= start { i - start } else { i + n - start };
            assert(wrap(start, m, n) == i);
        }
    }
}

/// Milliseconds elapsed between a first dispatch at `first_run_ms` and the
/// clock reading `now_us` (microseconds); zero for a reading taken earlier.
pub open spec fn elapsed_ms(first_run_ms: usize, now_us: usize) -> usize {
    if now_us / USEC_PER_MSEC >= first_run_ms {
        (now_us / USEC_PER_MSEC - first_run_ms) as usize
    } else {
        0
    }
}

/// `t` with its running time accounted up to the clock reading `now_us`.
pub open spec fn timed(t: TaskControlBlock, now_us: usize) -> TaskControlBlock {
    TaskControlBlock {
        task_info: TaskInfo { time: elapsed_ms(t.first_run_ms.unwrap(), now_us), ..t.task_info },
        ..t
    }
}

/// `t` after it exits with `code`.
pub open spec fn exited(t: TaskControlBlock, code: i32) -> TaskControlBlock {
    TaskControlBlock {
        task_info: TaskInfo { status: TaskStatus::Exited, ..t.task_info },
        exit_code: Some(code),
        ..t
    }
}

/// A count raised by one, staying at the largest value once it is there.
pub open spec fn bumped(count: u32) -> u32 {
    if count < u32::MAX {
        (count + 1) as u32
    } else {
        count
    }
}

/// `after` is `before` with one more call of syscall `id` counted.
pub open spec fn counted_once(before: TaskControlBlock, after: TaskControlBlock, id: int) -> bool {
    &&& after.task_info.status == before.task_info.status
    &&& after.task_info.time == before.task_info.time
    &&& after.first_run_ms == before.first_run_ms
    &&& after.exit_code == before.exit_code
    &&& after.task_info.syscall_times@ == before.task_info.syscall_times@.update(
        id,
        bumped(before.task_info.syscall_times@[id]),
    )
}

/// Where the round-robin scan starts after task `c` of a pool of `n`.
pub open spec fn after_slot(c: int, n: int) -> int {
    if c + 1 < n {
        c + 1
    } else {
        0
    }
}

/// The pool after the CPU goes to `next` (if any) at clock reading `now_us`.
pub open spec fn handed_to(
    tasks: Seq<TaskControlBlock>,
    next: Option<int>,
    now_us: usize,
) -> Seq<TaskControlBlock> {
    match next {
        Some(j) => tasks.update(j, dispatched(tasks[j], now_us)),
        None => tasks,
    }
}

/// An index of the pool as a machine integer.
pub open spec fn as_index(o: Option<int>) -> Option<usize> {
    match o {
        Some(j) => Some(j as usize),
        None => None,
    }
}

/// Every task of `before` made an allowed life-cycle move to `after`.
pub open spec fn lifecycle_steps(before: Seq<TaskControlBlock>, after: Seq<TaskControlBlock>) -> bool {
    &&& after.len() == before.len()
    &&& forall|i: int|
        0 <= i < before.len() ==> is_lifecycle_step(
            #[trigger] before[i].task_info.status,
            after[i].task_info.status,
        )
}

/// The fixed pool of tasks and the index of the one that holds the CPU.
/// Every change of task state goes through a `&mut` borrow of it, which
/// Rust grants to one holder at a time.
pub struct TaskManager {
    tasks: Vec<TaskControlBlock>,
    current: Option<usize>,
}

impl TaskManager {
    /// The task control blocks, by task id.
    pub closed spec fn tasks(&self) -> Seq<TaskControlBlock> {
        self.tasks@
    }

    /// The task that holds the CPU, if one does.
    pub closed spec fn current(&self) -> Option<usize> {
        self.current
    }

    /// Exactly the current task is `Running`, and a running task has a start
    /// time.
    pub open spec fn wf(&self) -> bool {
        &&& self.current() matches Some(c) ==> c < self.tasks().len()
        &&& forall|i: int|
            0 <= i < self.tasks().len() ==> ((#[trigger] self.tasks()[i]).task_info.status
                == TaskStatus::Running <==> self.current() == Some(i as usize))
        &&& forall|i: int|
            0 <= i < self.tasks().len() && (#[trigger] self.tasks()[i]).task_info.status
                == TaskStatus::Running ==> self.tasks()[i].first_run_ms is Some
    }

    /// A pool of `num_tasks` tasks that have never been admitted.
    pub fn new(num_tasks: usize) -> (r: TaskManager)
        ensures
            r.wf(),
            r.tasks().len() == num_tasks,
            r.current() is None,
            forall|i: int|
                0 <= i < num_tasks ==> {
                    &&& (#[trigger] r.tasks()[i]).task_info.status == TaskStatus::UnInit
                    &&& r.tasks()[i].task_info.time == 0
                    &&& forall|k: int|
                        0 <= k < MAX_SYSCALL_NUM ==> r.tasks()[i].task_info.syscall_times@[k]
                            == 0
                    &&& r.tasks()[i].first_run_ms is None
                    &&& r.tasks()[i].exit_code is None
                },
    {
        let mut tasks: Vec<TaskControlBlock> = Vec::new();
        let mut n: usize = 0;
        while n < num_tasks
            invariant
                n <= num_tasks,
                tasks@.len() == n,
                forall|i: int|
                    0 <= i < n ==> {
                        &&& (#[trigger] tasks@[i]).task_info.status == TaskStatus::UnInit
                        &&& tasks@[i].task_info.time == 0
                        &&& forall|k: int|
                            0 <= k < MAX_SYSCALL_NUM ==> tasks@[i].task_info.syscall_times@[k]
                                == 0
                        &&& tasks@[i].first_run_ms is None
                        &&& tasks@[i].exit_code is None
                    },
            decreases num_tasks - n,
        {
            tasks.push(TaskControlBlock { task_info: TaskInfo::new(), first_run_ms: None, exit_code: None });
            n = n + 1;
        }
        TaskManager { tasks, current: None }
    }

    /// Number of tasks in the pool.
    pub fn num_tasks(&self) -> (r: usize)
        ensures
            r == self.tasks().len(),
    {
        self.tasks.len()
    }

    /// The control block of task `id`.
    pub fn task(&self, id: usize) -> (r: &TaskControlBlock)
        requires
            id < self.tasks().len(),
        ensures
            *r == self.tasks()[id as int],
    {
        &self.tasks[id]
    }

    /// The task that holds the CPU, or `None` before the first dispatch and
    /// after every task has exited.
    pub fn current_task(&self) -> (r: Option<usize>)
        ensures
            r == self.current(),
    {
        self.current
    }

    /// The id of the task that holds the CPU.
    pub fn get_current_task_id(&self) -> (r: usize)
        requires
            self.wf(),
            self.current() is Some,
        ensures
            self.current() == Some(r),
            r < self.tasks().len(),
    {
        self.current.unwrap()
    }

    /// The round-robin scan for a `Ready` task, from position `start`.
    fn find_next_task(&self, start: usize) -> (r: Option<usize>)
        requires
            start < self.tasks().len(),
        ensures
            r == as_index(next_ready(self.tasks(), start as int)),
            r matches Some(j) ==> j < self.tasks().len() && self.tasks()[j as int].task_info.status
                == TaskStatus::Ready,
            r is None ==> forall|i: int|
                0 <= i < self.tasks().len() ==> #[trigger] self.tasks()[i].task_info.status
                    != TaskStatus::Ready,
    {
        proof {
            lemma_next_ready(self.tasks(), start as int);
        }
        let n = self.tasks.len();
        let mut k: usize = 0;
        while k < n
            invariant
                k <= n,
                n == self.tasks@.len(),
                start < n,
                next_ready(self.tasks@, start as int) == scan_ready(self.tasks@, start as int, k as int),
            decreases n - k,
        {
            let i: usize = if k < n - start {
                start + k
            } else {
                k - (n - start)
            };
            assert(i == wrap(start as int, k as int, n as int));
            if self.tasks[i].task_info.status == TaskStatus::Ready {
                return Some(i);
            }
            k = k + 1;
        }
        None
    }

    /// Admits task `id` to the schedulable pool: `UnInit` becomes `Ready`.
    /// Returns `false`, with nothing changed, when `id` is out of range or the
    /// task was admitted before.
    pub fn admit_task(&mut self, id: usize) -> (r: bool)
        requires
            old(self).wf(),
        ensures
            r == (id < old(self).tasks().len() && old(self).tasks()[id as int].task_info.status
                == TaskStatus::UnInit),
            r ==> final(self).tasks() == old(self).tasks().update(
                id as int,
                with_status(old(self).tasks()[id as int], TaskStatus::Ready),
            ),
            !r ==> final(self).tasks() == old(self).tasks(),
            final(self).current() == old(self).current(),
            final(self).wf(),
            lifecycle_steps(old(self).tasks(), final(self).tasks()),
    {
        if id >= self.tasks.len() || self.tasks[id].task_info.status != TaskStatus::UnInit {
            return false;
        }
        let mut t = self.tasks[id];
        t.task_info.status = TaskStatus::Ready;
        self.tasks.set(id, t);
        assert(self.tasks() =~= old(self).tasks().update(
            id as int,
            with_status(old(self).tasks()[id as int], TaskStatus::Ready),
        ));
        true
    }

    /// Admits every task that has not been admitted yet.
    pub fn admit_all(&mut self)
        requires
            old(self).wf(),
        ensures
            final(self).tasks().len() == old(self).tasks().len(),
            forall|i: int|
                0 <= i < old(self).tasks().len() ==> (#[trigger] final(self).tasks()[i]) == if old(
                    self,
                ).tasks()[i].task_info.status == TaskStatus::UnInit {
                    with_status(old(self).tasks()[i], TaskStatus::Ready)
                } else {
                    old(self).tasks()[i]
                },
            final(self).current() == old(self).current(),
            final(self).wf(),
            lifecycle_steps(old(self).tasks(), final(self).tasks()),
    {
        let n = self.tasks.len();
        let mut id: usize = 0;
        while id < n
            invariant
                id <= n,
                n == old(self).tasks().len(),
                self.wf(),
                self.tasks().len() == n,
                self.current() == old(self).current(),
                forall|i: int|
                    0 <= i < n ==> (#[trigger] self.tasks()[i]) == if i < id && old(
                        self,
                    ).tasks()[i].task_info.status == TaskStatus::UnInit {
                        with_status(old(self).tasks()[i], TaskStatus::Ready)
                    } else {
                        old(self).tasks()[i]
                    },
            decreases n - id,
        {
            self.admit_task(id);
            id = id + 1;
        }
        assert forall|i: int| 0 <= i < n implies is_lifecycle_step(
            #[trigger] old(self).tasks()[i].task_info.status,
            self.tasks()[i].task_info.status,
        ) by {
            assert(self.tasks()[i] == if old(self).tasks()[i].task_info.status
                == TaskStatus::UnInit {
                with_status(old(self).tasks()[i], TaskStatus::Ready)
            } else {
                old(self).tasks()[i]
            });
        }
    }

    /// Counts one call of syscall `syscall_id` for the current task; a count
    /// stays at its largest value once there. Returns `false`, with nothing
    /// changed, when no task runs or the id is not below `MAX_SYSCALL_NUM`.
    pub fn record_syscall(&mut self, syscall_id: usize) -> (r: bool)
        requires
            old(self).wf(),
        ensures
            r == (old(self).current() is Some && syscall_id < MAX_SYSCALL_NUM),
            r ==> {
                let c = old(self).current().unwrap() as int;
                &&& final(self).tasks().len() == old(self).tasks().len()
                &&& counted_once(old(self).tasks()[c], final(self).tasks()[c], syscall_id as int)
                &&& forall|i: int|
                    0 <= i < old(self).tasks().len() && i != c ==> #[trigger] final(self).tasks()[i]
                        == old(self).tasks()[i]
            },
            !r ==> final(self).tasks() == old(self).tasks(),
            final(self).current() == old(self).current(),
            final(self).wf(),
            lifecycle_steps(old(self).tasks(), final(self).tasks()),
    {
        if self.current.is_none() || syscall_id >= MAX_SYSCALL_NUM {
            return false;
        }
        let c = self.current.unwrap();
        let mut t = self.tasks[c];
        let count = t.task_info.syscall_times[syscall_id];
        if count < u32::MAX {
            t.task_info.syscall_times[syscall_id] = count + 1;
        }
        self.tasks.set(c, t);
        assert forall|i: int| 0 <= i < self.tasks().len() implies is_lifecycle_step(
            #[trigger] old(self).tasks()[i].task_info.status,
            self.tasks()[i].task_info.status,
        ) by {
            if i != c {
                assert(self.tasks()[i] == old(self).tasks()[i]);
            }
        }
        assert(self.tasks()[c as int].task_info.syscall_times@ =~= old(self).tasks()[c as int].task_info.syscall_times@.update(
            syscall_id as int,
            bumped(old(self).tasks()[c as int].task_info.syscall_times@[syscall_id as int]),
        ));
        true
    }

    /// Sets the current task's running time to the milliseconds elapsed from
    /// its first dispatch to the clock reading `now_us`.
    pub fn account_current_time(&mut self, now_us: usize)
        requires
            old(self).wf(),
            old(self).current() is Some,
        ensures
            ({
                let c = old(self).current().unwrap() as int;
                final(self).tasks() == old(self).tasks().update(c, timed(old(self).tasks()[c], now_us))
            }),
            final(self).current() == old(self).current(),
            final(self).wf(),
            lifecycle_steps(old(self).tasks(), final(self).tasks()),
    {
        let c = self.current.unwrap();
        let mut t = self.tasks[c];
        let first_run_ms = t.first_run_ms.unwrap();
        let now_ms = now_us / USEC_PER_MSEC;
        t.task_info.time = if now_ms >= first_run_ms {
            now_ms - first_run_ms
        } else {
            0
        };
        self.tasks.set(c, t);
        assert(self.tasks() =~= old(self).tasks().update(
            c as int,
            timed(old(self).tasks()[c as int], now_us),
        ));
        assert forall|i: int| 0 <= i < self.tasks().len() implies is_lifecycle_step(
            #[trigger] old(self).tasks()[i].task_info.status,
            self.tasks()[i].task_info.status,
        ) by {
            if i != c {
                assert(self.tasks()[i] == old(self).tasks()[i]);
            }
        }
    }

    /// Records the current task as `Running`. The current task already is, so
    /// the pool does not change.
    pub fn mark_current_running(&mut self)
        requires
            old(self).wf(),
            old(self).current() is Some,
        ensures
            ({
                let c = old(self).current().unwrap() as int;
                final(self).tasks() == old(self).tasks().update(
                    c,
                    with_status(old(self).tasks()[c], TaskStatus::Running),
                )
            }),
            final(self).tasks() == old(self).tasks(),
            final(self).current() == old(self).current(),
            final(self).wf(),
    {
        let c = self.current.unwrap();
        let mut t = self.tasks[c];
        t.task_info.status = TaskStatus::Running;
        self.tasks.set(c, t);
        assert(t == old(self).tasks()[c as int]);
        assert(self.tasks() =~= old(self).tasks());
    }

    /// Suspends the current task (it becomes `Ready`) and hands the CPU to
    /// the next `Ready` task in round-robin order after it, which may be the
    /// same task again. Returns the id of the task that now runs.
    pub fn suspend_current_and_run_next(&mut self, now_us: usize) -> (r: usize)
        requires
            old(self).wf(),
            old(self).current() is Some,
        ensures
            ({
                let c = old(self).current().unwrap() as int;
                let yielded = old(self).tasks().update(
                    c,
                    with_status(old(self).tasks()[c], TaskStatus::Ready),
                );
                let next = next_ready(yielded, after_slot(c, yielded.len() as int));
                &&& next == Some(r as int)
                &&& final(self).tasks() == handed_to(yielded, next, now_us)
            }),
            final(self).current() == Some(r),
            final(self).wf(),
            lifecycle_steps(old(self).tasks(), final(self).tasks()),
    {
        let c = self.current.unwrap();
        let n = self.tasks.len();
        let mut t = self.tasks[c];
        t.task_info.status = TaskStatus::Ready;
        self.tasks.set(c, t);
        self.current = None;
        assert(self.tasks() =~= old(self).tasks().update(
            c as int,
            with_status(old(self).tasks()[c as int], TaskStatus::Ready),
        ));
        let start: usize = if c + 1 < n {
            c + 1
        } else {
            0
        };
        let ghost yielded = self.tasks();
        proof {
            lemma_next_ready(yielded, start as int);
        }
        // Task `c` itself is `Ready` now, so a full turn finds a task.
        assert(yielded[c as int].task_info.status == TaskStatus::Ready);
        let j = self.find_next_task(start).unwrap();
        self.dispatch(j, now_us);
        assert forall|i: int| 0 <= i < n implies is_lifecycle_step(
            #[trigger] old(self).tasks()[i].task_info.status,
            self.tasks()[i].task_info.status,
        ) by {
            if i != j && i != c {
                assert(self.tasks()[i] == old(self).tasks()[i]);
            }
        }
        j
    }

    /// Ends the current task with `exit_code` (it becomes `Exited`) and hands
    /// the CPU to the next `Ready` task in round-robin order after it.
    /// Returns the id of the task that now runs, or `None` when no task is
    /// left to run.
    pub fn exit_current_and_run_next(&mut self, exit_code: i32, now_us: usize) -> (r: Option<usize>)
        requires
            old(self).wf(),
            old(self).current() is Some,
        ensures
            ({
                let c = old(self).current().unwrap() as int;
                let ended = old(self).tasks().update(c, exited(old(self).tasks()[c], exit_code));
                let next = next_ready(ended, after_slot(c, ended.len() as int));
                &&& r == as_index(next)
                &&& final(self).tasks() == handed_to(ended, next, now_us)
            }),
            final(self).current() == r,
            r != old(self).current(),
            final(self).tasks()[old(self).current().unwrap() as int].task_info.status
                == TaskStatus::Exited,
            final(self).tasks()[old(self).current().unwrap() as int].exit_code == Some(exit_code),
            r is None ==> forall|i: int|
                0 <= i < final(self).tasks().len() ==> #[trigger] final(self).tasks()[i].task_info.status
                    != TaskStatus::Ready,
            final(self).wf(),
            lifecycle_steps(old(self).tasks(), final(self).tasks()),
    {
        let c = self.current.unwrap();
        let n = self.tasks.len();
        let mut t = self.tasks[c];
        t.task_info.status = TaskStatus::Exited;
        t.exit_code = Some(exit_code);
        self.tasks.set(c, t);
        self.current = None;
        assert(self.tasks() =~= old(self).tasks().update(
            c as int,
            exited(old(self).tasks()[c as int], exit_code),
        ));
        let start: usize = if c + 1 < n {
            c + 1
        } else {
            0
        };
        let ghost ended = self.tasks();
        proof {
            lemma_next_ready(ended, start as int);
        }
        let next = self.find_next_task(start);
        if let Some(j) = next {
            self.dispatch(j, now_us);
        }
        proof {
            assert forall|i: int| 0 <= i < n implies is_lifecycle_step(
                #[trigger] old(self).tasks()[i].task_info.status,
                self.tasks()[i].task_info.status,
            ) by {
                if next != Some(i as usize) && i != c {
                    assert(self.tasks()[i] == old(self).tasks()[i]);
                }
            }
        }
        next
    }

    /// Hands the CPU to the first `Ready` task, scanning from task 0, when no
    /// task holds it yet. Returns the id of the task that now runs; `None`,
    /// with nothing changed, when a task already runs or none is `Ready`.
    pub fn run_first_task(&mut self, now_us: usize) -> (r: Option<usize>)
        requires
            old(self).wf(),
        ensures
            old(self).current() is Some || old(self).tasks().len() == 0 ==> r is None,
            old(self).current() is None && old(self).tasks().len() > 0 ==> r == as_index(
                next_ready(old(self).tasks(), 0),
            ),
            final(self).tasks() == handed_to(
                old(self).tasks(),
                match r {
                    Some(j) => Some(j as int),
                    None => None,
                },
                now_us,
            ),
            final(self).current() == if r is Some {
                r
            } else {
                old(self).current()
            },
            final(self).wf(),
            lifecycle_steps(old(self).tasks(), final(self).tasks()),
    {
        if self.current.is_some() || self.tasks.len() == 0 {
            return None;
        }
        let next = self.find_next_task(0);
        if let Some(j) = next {
            self.dispatch(j, now_us);
        }
        proof {
            assert forall|i: int| 0 <= i < self.tasks().len() implies is_lifecycle_step(
                #[trigger] old(self).tasks()[i].task_info.status,
                self.tasks()[i].task_info.status,
            ) by {
                if next != Some(i as usize) {
                    assert(self.tasks()[i] == old(self).tasks()[i]);
                }
            }
        }
        next
    }

    /// Gives the CPU to task `id` at clock reading `now_us`.
    fn dispatch(&mut self, id: usize, now_us: usize)
        requires
            id < old(self).tasks().len(),
        ensures
            final(self).tasks() == old(self).tasks().update(
                id as int,
                dispatched(old(self).tasks()[id as int], now_us),
            ),
            final(self).current() == Some(id),
    {
        let mut t = self.tasks[id];
        t.task_info.status = TaskStatus::Running;
        if t.first_run_ms.is_none() {
            t.first_run_ms = Some(now_us / USEC_PER_MSEC);
        }
        self.tasks.set(id, t);
        self.current = Some(id);
    }
}

} // verus!
