//! The cooperative, single-core scheduler and the interrupt bridge.
//!
//! Tasks are long-lived and non-terminating: they are registered once into a
//! fixed-capacity table and run to the point where each voluntarily
//! suspends. An interrupt may do nothing but mark the one task bound to its
//! line runnable; all actual logic re-enters through [`Scheduler::pick_next`],
//! which resumes the runnable task closest after the round-robin cursor.
//! Picking a task models running it to its next suspension point, so the
//! picked task comes back suspended and the cursor moves past it.

use vstd::prelude::*;
use crate::resource::StartupError;

verus! {

/// How many tasks the fixed table can hold.
pub const TASK_CAPACITY: usize = 8;

/// One schedulable unit of long-lived work.
#[derive(Clone, Copy, PartialEq, Eq, Structural, Debug)]
pub struct TaskRecord {
    /// Whether the task may be resumed, or is waiting on a wake source.
    pub runnable: bool,
}

/// The first runnable task at an index in `lo <= i < hi`, if any.
pub open spec fn scan_range(tasks: Seq<TaskRecord>, lo: int, hi: int) -> Option<int>
    decreases hi - lo,
{
    if lo >= hi {
        None
    } else if 0 <= lo < tasks.len() && tasks[lo].runnable {
        Some(lo)
    } else {
        scan_range(tasks, lo + 1, hi)
    }
}

/// The task `pick_next` resumes: the first runnable one at or after the
/// cursor, wrapping around to the front of the table.
pub open spec fn spec_pick(tasks: Seq<TaskRecord>, cursor: int) -> Option<int> {
    match scan_range(tasks, cursor, tasks.len() as int) {
        Some(i) => Some(i),
        None => scan_range(tasks, 0, cursor),
    }
}

/// If a scan over a range found nothing, no task in that range is runnable.
pub proof fn lemma_scan_none(tasks: Seq<TaskRecord>, lo: int, hi: int)
    requires
        0 <= lo,
        hi <= tasks.len(),
        scan_range(tasks, lo, hi) is None,
    ensures
        forall|i: int| lo <= i < hi ==> !tasks[i].runnable,
    decreases hi - lo,
{
    if lo < hi {
        lemma_scan_none(tasks, lo + 1, hi);
    }
}

/// A scan's find is runnable, lies in the range, and nothing runnable
/// precedes it there.
pub proof fn lemma_scan_some(tasks: Seq<TaskRecord>, lo: int, hi: int, f: int)
    requires
        0 <= lo,
        hi <= tasks.len(),
        scan_range(tasks, lo, hi) == Some(f),
    ensures
        lo <= f < hi,
        tasks[f].runnable,
        forall|i: int| lo <= i < f ==> !tasks[i].runnable,
    decreases hi - lo,
{
    if lo < hi && !tasks[lo].runnable {
        lemma_scan_some(tasks, lo + 1, hi, f);
    }
}

/// The cooperative executor: a fixed table of task records and the
/// round-robin cursor that decides which runnable task resumes next.
pub struct Scheduler {
    tasks: Vec<TaskRecord>,
    cursor: usize,
}

impl Scheduler {
    /// The cursor stays inside the table (or at zero while it is empty) and
    /// the table never outgrows its fixed capacity.
    pub closed spec fn wf(self) -> bool {
        &&& self.tasks@.len() <= TASK_CAPACITY
        &&& if self.tasks@.len() == 0 {
                self.cursor == 0
            } else {
                self.cursor < self.tasks@.len()
            }
    }

    /// The task table.
    pub closed spec fn table(self) -> Seq<TaskRecord> {
        self.tasks@
    }

    /// The round-robin cursor.
    pub closed spec fn cursor_at(self) -> int {
        self.cursor as int
    }

    /// An empty scheduler with no registered task.
    pub fn new() -> (s: Scheduler)
        ensures
            s.wf(),
            s.table() === Seq::empty(),
            s.cursor_at() == 0,
    {
        Scheduler { tasks: Vec::new(), cursor: 0 }
    }

    /// How many tasks are registered.
    pub fn len(&self) -> (n: usize)
        ensures
            n == self.table().len(),
    {
        self.tasks.len()
    }

    /// Admits one long-lived task and returns its table index.
    ///
    /// Fails exactly when the fixed table is already full; that failure is
    /// fatal to startup, there is no recovery. A new task starts runnable so
    /// that it gets its first turn without an interrupt.
    pub fn register(&mut self) -> (r: Result<usize, StartupError>)
        requires
            old(self).wf(),
        ensures
            final(self).wf(),
            old(self).table().len() < TASK_CAPACITY ==> {
                &&& r === Ok(old(self).table().len() as usize)
                &&& final(self).table() === old(self).table().push(TaskRecord { runnable: true })
                &&& final(self).cursor_at() == old(self).cursor_at()
            },
            old(self).table().len() >= TASK_CAPACITY ==> {
                &&& r === Err(StartupError::TaskTableFull)
                &&& *final(self) === *old(self)
            },
    {
        if self.tasks.len() < TASK_CAPACITY {
            let id = self.tasks.len();
            self.tasks.push(TaskRecord { runnable: true });
            Ok(id)
        } else {
            Err(StartupError::TaskTableFull)
        }
    }

    /// Marks one task runnable and touches nothing else.
    ///
    /// This is the whole effect a wake source is allowed to have: no task
    /// logic runs here, the woken task resumes only through `pick_next`.
    pub fn wake(&mut self, id: usize)
        requires
            old(self).wf(),
            id < old(self).table().len(),
        ensures
            final(self).wf(),
            final(self).table()
                === old(self).table().update(id as int, TaskRecord { runnable: true }),
            final(self).cursor_at() == old(self).cursor_at(),
    {
        self.tasks.set(id, TaskRecord { runnable: true });
    }

    /// Resumes the next runnable task, round-robin from the cursor.
    ///
    /// Returns the index of the first runnable task at or after the cursor
    /// (wrapping around), marks it suspended — the pick models running the
    /// task to its next voluntary suspension point — and moves the cursor
    /// just past it. Returns `None`, changing nothing, exactly when no task
    /// is runnable; a runnable task is never skipped in favour of one
    /// further from the cursor.
    #[verifier::loop_isolation(false)]
    pub fn pick_next(&mut self) -> (r: Option<usize>)
        requires
            old(self).wf(),
        ensures
            final(self).wf(),
            r is None ==> {
                &&& spec_pick(old(self).table(), old(self).cursor_at()) is None
                &&& forall|i: int| 0 <= i < old(self).table().len()
                        ==> !old(self).table()[i].runnable
                &&& final(self).table() === old(self).table()
                &&& final(self).cursor_at() == old(self).cursor_at()
            },
            r matches Some(id) ==> {
                &&& spec_pick(old(self).table(), old(self).cursor_at()) == Some(id as int)
                &&& id < old(self).table().len()
                &&& old(self).table()[id as int].runnable
                &&& final(self).table()
                        === old(self).table().update(id as int, TaskRecord { runnable: false })
                &&& final(self).cursor_at() == if id + 1 == old(self).table().len() {
                        0int
                    } else {
                        id + 1
                    }
            },
    {
        let n = self.tasks.len();
        let ghost t = self.tasks@;
        let ghost c = self.cursor as int;
        let mut i: usize = self.cursor;
        while i < n
            invariant
                self.cursor <= i <= n,
                n == t.len(),
                t == self.tasks@,
                c == self.cursor as int,
                scan_range(t, c, n as int) == scan_range(t, i as int, n as int),
            decreases n - i,
        {
            if self.tasks[i].runnable {
                proof {
                    assert(scan_range(t, i as int, n as int) == Some(i as int));
                }
                self.tasks.set(i, TaskRecord { runnable: false });
                self.cursor = if i + 1 == n { 0 } else { i + 1 };
                return Some(i);
            }
            i = i + 1;
        }
        let mut j: usize = 0;
        while j < self.cursor
            invariant
                j <= self.cursor,
                self.cursor < n || (n == 0 && self.cursor == 0),
                n == t.len(),
                t == self.tasks@,
                c == self.cursor as int,
                scan_range(t, c, n as int) is None,
                scan_range(t, 0, c) == scan_range(t, j as int, c),
            decreases self.cursor - j,
        {
            if self.tasks[j].runnable {
                proof {
                    assert(scan_range(t, j as int, c) == Some(j as int));
                }
                self.tasks.set(j, TaskRecord { runnable: false });
                self.cursor = if j + 1 == n { 0 } else { j + 1 };
                return Some(j);
            }
            j = j + 1;
        }
        proof {
            lemma_scan_none(t, c, n as int);
            lemma_scan_none(t, 0, c);
        }
        None
    }
}

/// How far ahead of the cursor a task index lies, scanning cyclically.
pub open spec fn cyclic_dist(cursor: int, t: int, n: int) -> int {
    if t >= cursor {
        t - cursor
    } else {
        n - cursor + t
    }
}

/// Round-robin never starves a runnable task. While some task `t` is
/// runnable a pick always finds work, and every pick either resumes `t` or
/// strictly shrinks `t`'s cyclic distance from the cursor — wakes and
/// suspensions of other tasks notwithstanding, since neither moves the
/// cursor. The distance is bounded by the table's length, so `t` resumes
/// within one full revolution of picks for as long as it stays runnable.
pub proof fn lemma_round_robin_progress(tasks: Seq<TaskRecord>, cursor: int, t: int)
    requires
        0 <= cursor < tasks.len(),
        0 <= t < tasks.len(),
        tasks[t].runnable,
    ensures
        spec_pick(tasks, cursor) is Some,
        spec_pick(tasks, cursor) matches Some(p) ==> {
            &&& 0 <= p < tasks.len()
            &&& tasks[p].runnable
            &&& (p == t || cyclic_dist(
                    if p + 1 == tasks.len() { 0int } else { p + 1 },
                    t,
                    tasks.len() as int,
                ) < cyclic_dist(cursor, t, tasks.len() as int))
        },
{
    let n = tasks.len() as int;
    match scan_range(tasks, cursor, n) {
        Some(p) => {
            lemma_scan_some(tasks, cursor, n, p);
            if t >= cursor && p > t {
                assert(!tasks[t].runnable);
            }
        },
        None => {
            lemma_scan_none(tasks, cursor, n);
            assert(t < cursor);
            match scan_range(tasks, 0, cursor) {
                Some(p) => {
                    lemma_scan_some(tasks, 0, cursor, p);
                    if p > t {
                        assert(!tasks[t].runnable);
                    }
                },
                None => {
                    lemma_scan_none(tasks, 0, cursor);
                    assert(!tasks[t].runnable);
                },
            }
        },
    }
}

/// One event of the scheduler's history: a wake source fires, or the
/// executor resumes its next task. `Pick` changes state exactly as
/// `pick_next`'s contract says, `Wake` exactly as `wake`'s.
pub enum SchedEvent {
    /// A wake source marks one task runnable.
    Wake { id: int },
    /// The executor resumes the task `spec_pick` chooses, if any.
    Pick,
}

/// The table and cursor after one event.
pub open spec fn apply_event(tasks: Seq<TaskRecord>, cursor: int, e: SchedEvent) -> (
    Seq<TaskRecord>,
    int,
) {
    match e {
        SchedEvent::Wake { id } => {
            if 0 <= id < tasks.len() {
                (tasks.update(id, TaskRecord { runnable: true }), cursor)
            } else {
                (tasks, cursor)
            }
        },
        SchedEvent::Pick => match spec_pick(tasks, cursor) {
            Some(p) => (
                tasks.update(p, TaskRecord { runnable: false }),
                if p + 1 == tasks.len() { 0int } else { p + 1 },
            ),
            None => (tasks, cursor),
        },
    }
}

/// Whether some pick along this event history resumes task `t`.
pub open spec fn some_pick_resumes(
    tasks: Seq<TaskRecord>,
    cursor: int,
    evs: Seq<SchedEvent>,
    t: int,
) -> bool
    decreases evs.len(),
{
    if evs.len() == 0 {
        false
    } else {
        let stepped = apply_event(tasks, cursor, evs[0]);
        (evs[0] is Pick && spec_pick(tasks, cursor) == Some(t))
            || some_pick_resumes(stepped.0, stepped.1, evs.skip(1), t)
    }
}

/// How many of these events are picks.
pub open spec fn count_picks(evs: Seq<SchedEvent>) -> int
    decreases evs.len(),
{
    if evs.len() == 0 {
        0
    } else {
        (if evs[0] is Pick { 1int } else { 0int }) + count_picks(evs.skip(1))
    }
}

/// Every runnable task eventually resumes. Whatever wake sources fire in
/// between, any event history with more picks than the task's cyclic
/// distance from the cursor contains a pick that resumes it: a runnable
/// task is not skipped indefinitely, it waits at most one full revolution
/// of the table.
pub proof fn lemma_eventual_resumption(
    tasks: Seq<TaskRecord>,
    cursor: int,
    evs: Seq<SchedEvent>,
    t: int,
)
    requires
        0 <= cursor < tasks.len(),
        0 <= t < tasks.len(),
        tasks[t].runnable,
        count_picks(evs) > cyclic_dist(cursor, t, tasks.len() as int),
    ensures
        some_pick_resumes(tasks, cursor, evs, t),
    decreases evs.len(),
{
    let n = tasks.len() as int;
    match evs[0] {
        SchedEvent::Wake { id } => {
            let stepped = apply_event(tasks, cursor, evs[0]);
            lemma_eventual_resumption(stepped.0, stepped.1, evs.skip(1), t);
        },
        SchedEvent::Pick => {
            lemma_round_robin_progress(tasks, cursor, t);
            let p = spec_pick(tasks, cursor)->Some_0;
            if p != t {
                let stepped = apply_event(tasks, cursor, evs[0]);
                lemma_eventual_resumption(stepped.0, stepped.1, evs.skip(1), t);
            }
        },
    }
}

/// Maps hardware interrupt lines to the tasks waiting on them.
///
/// The bridge owns nothing but the mapping. Delivering an interrupt may do
/// no more than mark the bound task runnable; interrupt context never runs
/// task logic, performs I/O, or touches driver state.
pub struct InterruptBridge {
    bindings: Vec<(u8, usize)>,
}

impl InterruptBridge {
    /// The line-to-task bindings, in the order they were made.
    pub closed spec fn bindings_seq(self) -> Seq<(u8, usize)> {
        self.bindings@
    }

    /// The task bound to `line`: the first binding for it, if any.
    pub open spec fn bound_task(self, line: u8) -> Option<usize> {
        lookup_line(self.bindings_seq(), line)
    }

    /// A bridge with no bindings.
    pub fn new() -> (b: InterruptBridge)
        ensures
            b.bindings_seq() === Seq::empty(),
    {
        InterruptBridge { bindings: Vec::new() }
    }

    /// Binds an interrupt line to one task.
    pub fn bind(&mut self, line: u8, task: usize)
        ensures
            final(self).bindings_seq() === old(self).bindings_seq().push((line, task)),
    {
        self.bindings.push((line, task));
    }

    /// The task an interrupt on `line` should wake, if the line is bound.
    #[verifier::loop_isolation(false)]
    pub fn task_for(&self, line: u8) -> (r: Option<usize>)
        ensures
            r == self.bound_task(line),
    {
        let n = self.bindings.len();
        proof {
            assert(self.bindings@.skip(0) =~= self.bindings@);
        }
        let mut i: usize = 0;
        while i < n
            invariant
                i <= n,
                n == self.bindings@.len(),
                lookup_line(self.bindings@, line)
                    == lookup_line(self.bindings@.skip(i as int), line),
            decreases n - i,
        {
            let (l, t) = self.bindings[i];
            proof {
                assert(self.bindings@.skip(i as int)[0] == self.bindings@[i as int]);
                assert(self.bindings@.skip(i as int).skip(1)
                    =~= self.bindings@.skip(i as int + 1));
            }
            if l == line {
                return Some(t);
            }
            i = i + 1;
        }
        proof {
            assert(self.bindings@.skip(n as int).len() == 0);
        }
        None
    }
}

/// The first binding for `line` in a binding list.
pub open spec fn lookup_line(bindings: Seq<(u8, usize)>, line: u8) -> Option<usize>
    decreases bindings.len(),
{
    if bindings.len() == 0 {
        None
    } else if bindings[0].0 == line {
        Some(bindings[0].1)
    } else {
        lookup_line(bindings.skip(1), line)
    }
}

/// Delivers one hardware interrupt: wakes the task bound to the line, and
/// nothing more. An unbound line is ignored.
pub fn deliver_interrupt(sched: &mut Scheduler, bridge: &InterruptBridge, line: u8) -> (woke:
    Option<usize>)
    requires
        old(sched).wf(),
        forall|t: usize| bridge.bound_task(line) == Some(t)
            ==> t < old(sched).table().len(),
    ensures
        final(sched).wf(),
        woke == bridge.bound_task(line),
        woke matches Some(id) ==> final(sched).table()
            === old(sched).table().update(id as int, TaskRecord { runnable: true }),
        woke is None ==> *final(sched) === *old(sched),
        final(sched).cursor_at() == old(sched).cursor_at(),
{
    match bridge.task_for(line) {
        Some(t) => {
            sched.wake(t);
            Some(t)
        },
        None => None,
    }
}

} // verus!
