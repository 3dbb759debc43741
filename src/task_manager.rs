//! The task manager: a fixed table of tasks, round-robin scheduling decisions,
//! per-task statistics and mapping changes in the running task's address space.
//!
//! Switching contexts is not done here: a scheduling operation updates the
//! table and returns a [`SwitchAction`] that the caller carries out, after it
//! no longer holds the manager.
use vstd::prelude::*;

use crate::config::{MAX_SYSCALL_NUM, PAGE_SIZE};
use crate::frame_allocator::PhysPageNum;
use crate::memory_set::{map_range, perm_of_port, permission_from_port, range_fully_mapped, range_overlaps, unmap_range};
use crate::task::{TaskControlBlock, TaskStatus, TaskStatsInfo};

verus! {

/// What the caller must do after a scheduling decision.
#[derive(Clone, Copy, PartialEq, Eq, Structural, Debug)]
pub enum SwitchAction {
    /// Save the context of task `current` and resume task `next`.
    Switch { current: usize, next: usize },
    /// No task is ready: every application has completed and the kernel halts.
    AllCompleted,
}

/// The index after `i` in a cyclic table of `n` tasks.
pub open spec fn next_index(i: nat, n: nat) -> nat {
    if i + 1 >= n { 0 } else { i + 1 }
}

/// The index `k` steps after `cur` in a cyclic table of `n` tasks.
pub open spec fn index_after(cur: nat, k: nat, n: nat) -> nat
    decreases k,
{
    if k == 0 { cur } else { next_index(index_after(cur, (k - 1) as nat, n), n) }
}

/// The first ready task among those `k`, `k + 1`, ..., `st.len()` steps after `cur`.
pub open spec fn first_ready_from(st: Seq<TaskStatus>, cur: nat, k: nat) -> Option<nat>
    decreases st.len() + 1 - k,
{
    if k > st.len() {
        None
    } else if st[index_after(cur, k, st.len()) as int] == TaskStatus::Ready {
        Some(index_after(cur, k, st.len()))
    } else {
        first_ready_from(st, cur, k + 1)
    }
}

/// The next task to run after `cur`: the first ready one in cyclic order
/// starting right after `cur`, `cur` itself last.
pub open spec fn find_next(st: Seq<TaskStatus>, cur: nat) -> Option<nat> {
    first_ready_from(st, cur, 1)
}

/// Statuses and current index after a scheduling attempt from `cur`.
pub open spec fn schedule(st: Seq<TaskStatus>, cur: nat) -> (Seq<TaskStatus>, nat) {
    match find_next(st, cur) {
        Some(n) => (st.update(n as int, TaskStatus::Running), n),
        None => (st, cur),
    }
}

/// Statuses and current index after the running task `cur` yields.
pub open spec fn yield_step(st: Seq<TaskStatus>, cur: nat) -> (Seq<TaskStatus>, nat) {
    schedule(st.update(cur as int, TaskStatus::Ready), cur)
}

/// Statuses and current index after the running task `cur` exits.
pub open spec fn exit_step(st: Seq<TaskStatus>, cur: nat) -> (Seq<TaskStatus>, nat) {
    schedule(st.update(cur as int, TaskStatus::Exited), cur)
}

/// The action that a scheduling attempt from `cur` with outcome `next` asks for.
pub open spec fn action_of(next: Option<nat>, cur: nat) -> SwitchAction {
    match next {
        Some(n) => SwitchAction::Switch { current: cur as usize, next: n as usize },
        None => SwitchAction::AllCompleted,
    }
}

/// `t` once scheduled at time `now`: running, with its first-scheduled time
/// recorded unless it was already set.
pub open spec fn scheduled(t: TaskControlBlock, now: usize) -> TaskControlBlock {
    TaskControlBlock {
        task_status: TaskStatus::Running,
        stats: TaskStatsInfo {
            first_run_time: if t.stats.first_run_time == 0 { now } else { t.stats.first_run_time },
            ..t.stats
        },
        ..t
    }
}

/// `t` with status `s`.
pub open spec fn with_status(t: TaskControlBlock, s: TaskStatus) -> TaskControlBlock {
    TaskControlBlock { task_status: s, ..t }
}

/// `a` and `b` agree on everything but the mapped pages of their address spaces.
pub open spec fn same_but_pages(a: TaskControlBlock, b: TaskControlBlock) -> bool {
    &&& a.task_status == b.task_status
    &&& a.task_cx == b.task_cx
    &&& a.stats == b.stats
    &&& a.memory_set.spec_token() == b.memory_set.spec_token()
    &&& a.trap_cx_ppn == b.trap_cx_ppn
    &&& a.base_size == b.base_size
}

/// First virtual page of a region starting at address `start`.
pub open spec fn page_floor(start: nat) -> nat {
    start / (PAGE_SIZE as nat)
}

/// First virtual page past a region ending (exclusively) at address `end`.
pub open spec fn page_ceil(end: nat) -> nat {
    ((end + PAGE_SIZE - 1) as int / PAGE_SIZE as int) as nat
}

fn vpn_range(start: usize, len: usize) -> (r: (usize, usize))
    requires
        start + len <= usize::MAX,
    ensures
        r.0 == page_floor(start as nat),
        r.1 == page_ceil((start + len) as nat),
{
    let end = start + len;
    let e = end / PAGE_SIZE + if end % PAGE_SIZE == 0 { 0 } else { 1 };
    assert(e == page_ceil(end as nat)) by (nonlinear_arith)
        requires
            e == end / 4096 + if end % 4096 == 0 { 0int } else { 1int },
            end >= 0,
    ;
    (start / PAGE_SIZE, e)
}

/// The fixed table of tasks and the index of the running one.
pub struct TaskManager {
    num_app: usize,
    tasks: Vec<TaskControlBlock>,
    current_task: usize,
}

impl TaskManager {
    /// The task table.
    pub closed spec fn tasks(&self) -> Seq<TaskControlBlock> {
        self.tasks@
    }

    /// Index of the current task.
    pub closed spec fn current(&self) -> nat {
        self.current_task as nat
    }

    /// Number of tasks the manager was built with.
    pub closed spec fn spec_num_app(&self) -> nat {
        self.num_app as nat
    }

    pub open spec fn wf(&self) -> bool {
        &&& self.spec_num_app() == self.tasks().len()
        &&& 0 < self.tasks().len()
        &&& self.current() < self.tasks().len()
    }

    /// Status of each task, by index.
    pub open spec fn statuses(&self) -> Seq<TaskStatus> {
        Seq::new(self.tasks().len(), |i: int| self.tasks()[i].task_status)
    }

    /// The current task's address space, as mapped pages.
    pub open spec fn current_pages(&self) -> Map<usize, u8> {
        self.tasks()[self.current() as int].memory_set@
    }

    /// A manager over `tasks`, task 0 current.
    pub fn new(tasks: Vec<TaskControlBlock>) -> (r: Self)
        requires
            tasks@.len() > 0,
        ensures
            r.wf(),
            r.tasks() == tasks@,
            r.current() == 0,
    {
        let num_app = tasks.len();
        TaskManager { num_app, tasks, current_task: 0 }
    }

    /// Index of the current task.
    pub fn current_task(&self) -> (r: usize)
        ensures
            r == self.current(),
    {
        self.current_task
    }

    /// Number of tasks.
    pub fn num_app(&self) -> (r: usize)
        ensures
            r == self.spec_num_app(),
    {
        self.num_app
    }

    /// Status of task `i`.
    pub fn task_status(&self, i: usize) -> (r: TaskStatus)
        requires
            self.wf(),
            i < self.tasks().len(),
        ensures
            r == self.tasks()[i as int].task_status,
    {
        self.tasks[i].task_status
    }

    /// Marks task 0 running, current, and first scheduled at `now`; the caller
    /// then switches into it from a throwaway context.
    pub fn run_first_task(&mut self, now: usize)
        requires
            old(self).wf(),
        ensures
            final(self).wf(),
            final(self).current() == 0,
            final(self).tasks() == old(self).tasks().update(
                0,
                (TaskControlBlock {
                    task_status: TaskStatus::Running,
                    stats: TaskStatsInfo { first_run_time: now, ..old(self).tasks()[0].stats },
                    ..old(self).tasks()[0]
                }),
            ),
    {
        self.tasks[0].task_status = TaskStatus::Running;
        self.tasks[0].stats.first_run_time = now;
        self.current_task = 0;
    }

    /// Marks the current task ready.
    pub fn mark_current_suspended(&mut self)
        requires
            old(self).wf(),
        ensures
            final(self).wf(),
            final(self).current() == old(self).current(),
            final(self).tasks() == old(self).tasks().update(
                old(self).current() as int,
                with_status(old(self).tasks()[old(self).current() as int], TaskStatus::Ready),
            ),
    {
        let current = self.current_task;
        self.tasks[current].task_status = TaskStatus::Ready;
    }

    /// Marks the current task exited.
    pub fn mark_current_exited(&mut self)
        requires
            old(self).wf(),
        ensures
            final(self).wf(),
            final(self).current() == old(self).current(),
            final(self).tasks() == old(self).tasks().update(
                old(self).current() as int,
                with_status(old(self).tasks()[old(self).current() as int], TaskStatus::Exited),
            ),
    {
        let current = self.current_task;
        self.tasks[current].task_status = TaskStatus::Exited;
    }

    /// The first ready task in cyclic order after the current one, the current
    /// one itself last; `None` when no task is ready.
    pub fn find_next_task(&self) -> (r: Option<usize>)
        requires
            self.wf(),
        ensures
            find_next(self.statuses(), self.current()) == match r {
                Some(i) => Some(i as nat),
                None => None::<nat>,
            },
            r matches Some(i) ==> i < self.tasks().len() && self.statuses()[i as int] == TaskStatus::Ready,
    {
        let n = self.num_app;
        let cur = self.current_task;
        let ghost st = self.statuses();
        let mut j: usize = 0;
        let mut id: usize = if cur + 1 >= n { 0 } else { cur + 1 };
        assert(index_after(cur as nat, 1nat, n as nat) == next_index(index_after(cur as nat, 0nat, n as nat), n as nat));
        while j < n
            invariant
                n == self.tasks@.len(),
                st == self.statuses(),
                cur == self.current_task,
                j <= n,
                id < n,
                id == index_after(cur as nat, (j + 1) as nat, n as nat),
                find_next(st, cur as nat) == first_ready_from(st, cur as nat, (j + 1) as nat),
            decreases n - j,
        {
            if self.tasks[id].task_status == TaskStatus::Ready {
                return Some(id);
            }
            assert(st[id as int] != TaskStatus::Ready);
            assert(index_after(cur as nat, (j + 2) as nat, n as nat) == next_index(
                index_after(cur as nat, (j + 1) as nat, n as nat),
                n as nat,
            ));
            j = j + 1;
            id = if id + 1 >= n { 0 } else { id + 1 };
        }
        None
    }

    /// Schedules the next ready task: marks it running, records its
    /// first-scheduled time `now` if unset, makes it current and asks for a
    /// switch to it. With no ready task, changes nothing and reports that all
    /// applications have completed.
    pub fn run_next_task(&mut self, now: usize) -> (r: SwitchAction)
        requires
            old(self).wf(),
        ensures
            final(self).wf(),
            r == action_of(find_next(old(self).statuses(), old(self).current()), old(self).current()),
            (final(self).statuses(), final(self).current()) == schedule(old(self).statuses(), old(self).current()),
            match find_next(old(self).statuses(), old(self).current()) {
                Some(n) => final(self).tasks() == old(self).tasks().update(
                    n as int,
                    scheduled(old(self).tasks()[n as int], now),
                ),
                None => final(self).tasks() == old(self).tasks(),
            },
    {
        let ghost old_tasks = self.tasks@;
        let ghost st = self.statuses();
        match self.find_next_task() {
            Some(next) => {
                let current = self.current_task;
                self.tasks[next].task_status = TaskStatus::Running;
                self.current_task = next;
                if self.tasks[next].stats.first_run_time == 0 {
                    self.tasks[next].stats.first_run_time = now;
                }
                assert(self.tasks@ =~= old_tasks.update(next as int, scheduled(old_tasks[next as int], now)));
                assert(self.statuses() =~= st.update(next as int, TaskStatus::Running));
                SwitchAction::Switch { current, next }
            },
            None => SwitchAction::AllCompleted,
        }
    }

    /// Token of the current task's address space.
    pub fn get_current_token(&self) -> (r: usize)
        requires
            self.wf(),
        ensures
            r == self.tasks()[self.current() as int].memory_set.spec_token(),
    {
        self.tasks[self.current_task].get_user_token()
    }

    /// Physical page of the current task's trap context.
    pub fn get_current_trap_cx(&self) -> (r: PhysPageNum)
        requires
            self.wf(),
        ensures
            r == self.tasks()[self.current() as int].trap_cx_ppn,
    {
        self.tasks[self.current_task].get_trap_cx()
    }

    /// Status, syscall counters and first-scheduled time of the current task.
    pub fn get_current_task_info(&self) -> (r: (TaskStatus, [u32; MAX_SYSCALL_NUM], usize))
        requires
            self.wf(),
        ensures
            r.0 == self.tasks()[self.current() as int].task_status,
            r.1 == self.tasks()[self.current() as int].stats.system_call_record,
            r.2 == self.tasks()[self.current() as int].stats.first_run_time,
    {
        let status = self.tasks[self.current_task].task_status;
        let (syscall_record, first_run_time) = self.tasks[self.current_task].stats.get_info();
        (status, syscall_record, first_run_time)
    }

    /// Counts one more call of syscall `syscall_id` by the current task; a
    /// counter stops at its largest value.
    pub fn record_syscall(&mut self, syscall_id: usize)
        requires
            old(self).wf(),
            syscall_id < MAX_SYSCALL_NUM,
        ensures
            final(self).wf(),
            final(self).current() == old(self).current(),
            ({
                let t = old(self).tasks()[old(self).current() as int];
                let c = t.stats.system_call_record[syscall_id as int];
                let c2: u32 = if c < u32::MAX { (c + 1) as u32 } else { c };
                let t2 = final(self).tasks()[old(self).current() as int];
                &&& final(self).tasks().len() == old(self).tasks().len()
                &&& forall|i: int| 0 <= i < old(self).tasks().len() && i != old(self).current()
                    ==> final(self).tasks()[i] == old(self).tasks()[i]
                &&& t2 == (TaskControlBlock {
                    stats: TaskStatsInfo { system_call_record: t2.stats.system_call_record, ..t.stats },
                    ..t
                })
                &&& t2.stats.system_call_record@ == t.stats.system_call_record@.update(syscall_id as int, c2)
            }),
    {
        let current = self.current_task;
        let c = self.tasks[current].stats.system_call_record[syscall_id];
        let c2 = if c < u32::MAX { c + 1 } else { c };
        self.tasks[current].stats.system_call_record[syscall_id] = c2;
    }

    /// Maps the pages of `[start, start + len)` in the current task's address
    /// space with the permission given by `port` (bit 0 read, bit 1 write,
    /// bit 2 execute), always user-accessible. Returns -1 and changes nothing
    /// when some page of the region is already mapped; 0 otherwise.
    pub fn mmap(&mut self, start: usize, len: usize, port: usize) -> (r: isize)
        requires
            old(self).wf(),
            port < 8,
            start + len <= usize::MAX,
        ensures
            final(self).wf(),
            final(self).current() == old(self).current(),
            ({
                let m = old(self).current_pages();
                let s = page_floor(start as nat);
                let e = page_ceil((start + len) as nat);
                if range_overlaps(m, s, e) {
                    r == -1 && final(self).tasks() == old(self).tasks()
                } else {
                    &&& r == 0
                    &&& final(self).tasks().len() == old(self).tasks().len()
                    &&& forall|i: int| 0 <= i < old(self).tasks().len() && i != old(self).current()
                        ==> final(self).tasks()[i] == old(self).tasks()[i]
                    &&& same_but_pages(final(self).tasks()[old(self).current() as int], old(self).tasks()[old(self).current() as int])
                    &&& final(self).current_pages() == map_range(m, s, e, perm_of_port(port as nat))
                }
            }),
    {
        let current = self.current_task;
        let (start_vpn, end_vpn) = vpn_range(start, len);
        if self.tasks[current].memory_set.range_overlaps(start_vpn, end_vpn) {
            return -1;
        }
        let permission = permission_from_port(port);
        self.tasks[current].memory_set.insert_framed_area(start_vpn, end_vpn, permission);
        0
    }

    /// Unmaps the pages of `[start, start + len)` in the current task's address
    /// space. Returns -1 and changes nothing when some page of the region is not
    /// mapped; 0 otherwise.
    pub fn unmap(&mut self, start: usize, len: usize) -> (r: isize)
        requires
            old(self).wf(),
            start + len <= usize::MAX,
        ensures
            final(self).wf(),
            final(self).current() == old(self).current(),
            ({
                let m = old(self).current_pages();
                let s = page_floor(start as nat);
                let e = page_ceil((start + len) as nat);
                if !range_fully_mapped(m, s, e) {
                    r == -1 && final(self).tasks() == old(self).tasks()
                } else {
                    &&& r == 0
                    &&& final(self).tasks().len() == old(self).tasks().len()
                    &&& forall|i: int| 0 <= i < old(self).tasks().len() && i != old(self).current()
                        ==> final(self).tasks()[i] == old(self).tasks()[i]
                    &&& same_but_pages(final(self).tasks()[old(self).current() as int], old(self).tasks()[old(self).current() as int])
                    &&& final(self).current_pages() == unmap_range(m, s, e)
                }
            }),
    {
        let current = self.current_task;
        let (start_vpn, end_vpn) = vpn_range(start, len);
        if !self.tasks[current].memory_set.range_fully_mapped(start_vpn, end_vpn) {
            return -1;
        }
        self.tasks[current].memory_set.remove_area(start_vpn, end_vpn);
        0
    }
}

/// Task indices scheduled by `k` consecutive yields, starting with `cur` running.
pub open spec fn yield_visits(st: Seq<TaskStatus>, cur: nat, k: nat) -> Seq<nat>
    decreases k,
{
    if k == 0 {
        Seq::empty()
    } else {
        let (st2, c2) = yield_step(st, cur);
        seq![c2] + yield_visits(st2, c2, (k - 1) as nat)
    }
}

/// Task `cur` runs and every other task is ready.
pub open spec fn all_ready_but_running(st: Seq<TaskStatus>, cur: nat) -> bool {
    &&& cur < st.len()
    &&& st[cur as int] == TaskStatus::Running
    &&& forall|i: int| 0 <= i < st.len() && i != cur ==> st[i] == TaskStatus::Ready
}

proof fn lemma_index_after_closed(cur: nat, k: nat, n: nat)
    requires
        cur < n,
        k <= n,
    ensures
        index_after(cur, k, n) == if cur + k < n { cur + k } else { (cur + k - n) as nat },
    decreases k,
{
    if k > 0 {
        lemma_index_after_closed(cur, (k - 1) as nat, n);
    }
}

proof fn lemma_index_after_shift(cur: nat, k: nat, n: nat)
    ensures
        index_after(cur, k + 1, n) == index_after(next_index(cur, n), k, n),
    decreases k,
{
    if k > 0 {
        lemma_index_after_shift(cur, (k - 1) as nat, n);
        assert(index_after(cur, k + 1, n) == next_index(index_after(cur, k, n), n));
    } else {
        assert(index_after(cur, 1, n) == next_index(index_after(cur, 0, n), n));
    }
}

proof fn lemma_yield_step_all_ready(st: Seq<TaskStatus>, cur: nat)
    requires
        all_ready_but_running(st, cur),
    ensures
        yield_step(st, cur).1 == next_index(cur, st.len()),
        all_ready_but_running(yield_step(st, cur).0, yield_step(st, cur).1),
        yield_step(st, cur).0.len() == st.len(),
{
    let st1 = st.update(cur as int, TaskStatus::Ready);
    assert(index_after(cur, 1, st.len()) == next_index(index_after(cur, 0, st.len()), st.len()));
    assert(find_next(st1, cur) == Some(next_index(cur, st.len())));
}

proof fn lemma_yield_visits_indices(st: Seq<TaskStatus>, cur: nat, k: nat)
    requires
        all_ready_but_running(st, cur),
    ensures
        yield_visits(st, cur, k).len() == k,
        forall|i: int| 0 <= i < k ==> #[trigger] yield_visits(st, cur, k)[i] == index_after(cur, (i + 1) as nat, st.len()),
    decreases k,
{
    if k > 0 {
        lemma_yield_step_all_ready(st, cur);
        let (st2, c2) = yield_step(st, cur);
        lemma_yield_visits_indices(st2, c2, (k - 1) as nat);
        let v = yield_visits(st, cur, k);
        assert forall|i: int| 0 <= i < k implies #[trigger] v[i] == index_after(cur, (i + 1) as nat, st.len()) by {
            if i == 0 {
                assert(index_after(cur, 1, st.len()) == next_index(index_after(cur, 0, st.len()), st.len()));
            } else {
                lemma_index_after_shift(cur, i as nat, st.len());
                assert(v[i] == yield_visits(st2, c2, (k - 1) as nat)[i - 1]);
            }
        }
    }
}

/// Scheduler fairness: when task `cur` runs and every other task is ready,
/// as many consecutive yields as there are tasks schedule each task index
/// exactly once, in cyclic order starting right after `cur`.
pub proof fn lemma_yield_fairness(st: Seq<TaskStatus>, cur: nat)
    requires
        all_ready_but_running(st, cur),
    ensures
        yield_visits(st, cur, st.len()).len() == st.len(),
        forall|i: int| 0 <= i < st.len() ==> #[trigger] yield_visits(st, cur, st.len())[i] == index_after(cur, (i + 1) as nat, st.len()),
        yield_visits(st, cur, st.len()).no_duplicates(),
        forall|j: nat| j < st.len() ==> yield_visits(st, cur, st.len()).contains(j),
{
    let n = st.len();
    let v = yield_visits(st, cur, n);
    lemma_yield_visits_indices(st, cur, n);
    assert forall|a: int, b: int| 0 <= a < n && 0 <= b < n && a != b implies v[a] != v[b] by {
        lemma_index_after_closed(cur, (a + 1) as nat, n);
        lemma_index_after_closed(cur, (b + 1) as nat, n);
    }
    assert forall|j: nat| j < n implies v.contains(j) by {
        let i: int = if j > cur { j - cur - 1 } else { j + n - cur - 1 };
        lemma_index_after_closed(cur, (i + 1) as nat, n);
        assert(v[i] == j);
    }
}

proof fn lemma_none_ready_from(st: Seq<TaskStatus>, cur: nat, k: nat)
    requires
        forall|i: int| 0 <= i < st.len() ==> st[i] != TaskStatus::Ready,
        k >= 1,
    ensures
        first_ready_from(st, cur, k) == None::<nat>,
    decreases st.len() + 1 - k,
{
    if k <= st.len() {
        assert(index_after(cur, k, st.len()) == next_index(index_after(cur, (k - 1) as nat, st.len()), st.len()));
        lemma_none_ready_from(st, cur, k + 1);
    }
}

/// Termination: once every task has exited, a scheduling attempt finds no
/// task to resume, changes nothing, and halts the kernel.
pub proof fn lemma_all_exited_halts(st: Seq<TaskStatus>, cur: nat)
    requires
        forall|i: int| 0 <= i < st.len() ==> st[i] == TaskStatus::Exited,
    ensures
        find_next(st, cur) == None::<nat>,
        schedule(st, cur) == (st, cur),
        action_of(find_next(st, cur), cur) == SwitchAction::AllCompleted,
{
    lemma_none_ready_from(st, cur, 1);
}

/// When the running task `cur` exits while every other task has already
/// exited, every task has exited and the kernel halts.
pub proof fn lemma_last_exit_halts(st: Seq<TaskStatus>, cur: nat)
    requires
        cur < st.len(),
        forall|i: int| 0 <= i < st.len() && i != cur ==> st[i] == TaskStatus::Exited,
    ensures
        exit_step(st, cur) == (st.update(cur as int, TaskStatus::Exited), cur),
        action_of(find_next(st.update(cur as int, TaskStatus::Exited), cur), cur) == SwitchAction::AllCompleted,
{
    lemma_all_exited_halts(st.update(cur as int, TaskStatus::Exited), cur);
}

proof fn lemma_first_ready_from_found(st: Seq<TaskStatus>, cur: nat, k: nat)
    requires
        k >= 1,
    ensures
        first_ready_from(st, cur, k) matches Some(x) ==> x < st.len() && st[x as int] == TaskStatus::Ready,
    decreases st.len() + 1 - k,
{
    if k <= st.len() {
        assert(index_after(cur, k, st.len()) == next_index(index_after(cur, (k - 1) as nat, st.len()), st.len()));
        lemma_first_ready_from_found(st, cur, k + 1);
    }
}

proof fn lemma_first_ready_from_some(st: Seq<TaskStatus>, cur: nat, k: nat, k0: nat)
    requires
        1 <= k <= k0 <= st.len(),
        st[index_after(cur, k0, st.len()) as int] == TaskStatus::Ready,
    ensures
        first_ready_from(st, cur, k) is Some,
    decreases k0 - k,
{
    if k < k0 {
        lemma_first_ready_from_some(st, cur, k + 1, k0);
    }
}

/// Exactly task `cur` is running.
pub open spec fn only_running(st: Seq<TaskStatus>, cur: nat) -> bool {
    &&& cur < st.len()
    &&& forall|i: int| 0 <= i < st.len() ==> (st[i] == TaskStatus::Running <==> i == cur)
}

/// A single running task: when exactly the current task runs, a yield always
/// resumes some task, and afterwards exactly the newly current task runs.
pub proof fn lemma_yield_keeps_one_running(st: Seq<TaskStatus>, cur: nat)
    requires
        only_running(st, cur),
    ensures
        find_next(st.update(cur as int, TaskStatus::Ready), cur) is Some,
        only_running(yield_step(st, cur).0, yield_step(st, cur).1),
{
    let n = st.len();
    let st1 = st.update(cur as int, TaskStatus::Ready);
    lemma_index_after_closed(cur, n, n);
    lemma_first_ready_from_some(st1, cur, 1, n);
    lemma_first_ready_from_found(st1, cur, 1);
}

/// A single running task: when exactly the current task runs and it exits,
/// either exactly the newly scheduled task runs, or no task is ready, none
/// runs, and the kernel halts.
pub proof fn lemma_exit_keeps_at_most_one_running(st: Seq<TaskStatus>, cur: nat)
    requires
        only_running(st, cur),
    ensures
        find_next(st.update(cur as int, TaskStatus::Exited), cur) is Some
            ==> only_running(exit_step(st, cur).0, exit_step(st, cur).1),
        find_next(st.update(cur as int, TaskStatus::Exited), cur) is None ==> {
            &&& forall|i: int| 0 <= i < st.len() ==> exit_step(st, cur).0[i] != TaskStatus::Running
            &&& action_of(find_next(st.update(cur as int, TaskStatus::Exited), cur), cur) == SwitchAction::AllCompleted
        },
{
    lemma_first_ready_from_found(st.update(cur as int, TaskStatus::Exited), cur, 1);
}

/// Marks task 0 running and first scheduled at `now`; the caller then switches
/// into it and never comes back.
pub fn run_first_task(manager: &mut TaskManager, now: usize)
    requires
        old(manager).wf(),
    ensures
        final(manager).wf(),
        final(manager).current() == 0,
        final(manager).tasks() == old(manager).tasks().update(
            0,
            (TaskControlBlock {
                task_status: TaskStatus::Running,
                stats: TaskStatsInfo { first_run_time: now, ..old(manager).tasks()[0].stats },
                ..old(manager).tasks()[0]
            }),
        ),
{
    manager.run_first_task(now);
}

/// The running task yields: it becomes ready and the next ready task in
/// cyclic order, possibly itself, is scheduled at time `now`.
pub fn suspend_current_and_run_next(manager: &mut TaskManager, now: usize) -> (r: SwitchAction)
    requires
        old(manager).wf(),
    ensures
        final(manager).wf(),
        (final(manager).statuses(), final(manager).current()) == yield_step(old(manager).statuses(), old(manager).current()),
        r == action_of(
            find_next(old(manager).statuses().update(old(manager).current() as int, TaskStatus::Ready), old(manager).current()),
            old(manager).current(),
        ),
{
    let ghost st = manager.statuses();
    manager.mark_current_suspended();
    assert(manager.statuses() =~= st.update(manager.current() as int, TaskStatus::Ready));
    manager.run_next_task(now)
}

/// The running task exits for good and the next ready task in cyclic order is
/// scheduled at time `now`; with none left, all applications have completed.
pub fn exit_current_and_run_next(manager: &mut TaskManager, now: usize) -> (r: SwitchAction)
    requires
        old(manager).wf(),
    ensures
        final(manager).wf(),
        (final(manager).statuses(), final(manager).current()) == exit_step(old(manager).statuses(), old(manager).current()),
        r == action_of(
            find_next(old(manager).statuses().update(old(manager).current() as int, TaskStatus::Exited), old(manager).current()),
            old(manager).current(),
        ),
{
    let ghost st = manager.statuses();
    manager.mark_current_exited();
    assert(manager.statuses() =~= st.update(manager.current() as int, TaskStatus::Exited));
    manager.run_next_task(now)
}

/// Token of the running task's address space.
pub fn current_user_token(manager: &TaskManager) -> (r: usize)
    requires
        manager.wf(),
    ensures
        r == manager.tasks()[manager.current() as int].memory_set.spec_token(),
{
    manager.get_current_token()
}

/// Physical page of the running task's trap context.
pub fn current_trap_cx(manager: &TaskManager) -> (r: PhysPageNum)
    requires
        manager.wf(),
    ensures
        r == manager.tasks()[manager.current() as int].trap_cx_ppn,
{
    manager.get_current_trap_cx()
}

/// Status, syscall counters and first-scheduled time of the running task.
pub fn get_task_info(manager: &TaskManager) -> (r: (TaskStatus, [u32; MAX_SYSCALL_NUM], usize))
    requires
        manager.wf(),
    ensures
        r.0 == manager.tasks()[manager.current() as int].task_status,
        r.1 == manager.tasks()[manager.current() as int].stats.system_call_record,
        r.2 == manager.tasks()[manager.current() as int].stats.first_run_time,
{
    manager.get_current_task_info()
}

/// Counts one more call of syscall `syscall_id` by the running task.
pub fn record_syscall(manager: &mut TaskManager, syscall_id: usize)
    requires
        old(manager).wf(),
        syscall_id < MAX_SYSCALL_NUM,
    ensures
        final(manager).wf(),
        final(manager).current() == old(manager).current(),
        final(manager).tasks().len() == old(manager).tasks().len(),
        forall|i: int| 0 <= i < old(manager).tasks().len() && i != old(manager).current()
            ==> final(manager).tasks()[i] == old(manager).tasks()[i],
        ({
            let c = old(manager).tasks()[old(manager).current() as int].stats.system_call_record[syscall_id as int];
            final(manager).tasks()[old(manager).current() as int].stats.system_call_record[syscall_id as int]
                == if c < u32::MAX { (c + 1) as u32 } else { c }
        }),
        forall|k: int| 0 <= k < MAX_SYSCALL_NUM && k != syscall_id
            ==> final(manager).tasks()[old(manager).current() as int].stats.system_call_record[k]
                == old(manager).tasks()[old(manager).current() as int].stats.system_call_record[k],
{
    manager.record_syscall(syscall_id);
}

/// Maps `[start, start + len)` in the running task's address space; see [`TaskManager::mmap`].
pub fn mmap(manager: &mut TaskManager, start: usize, len: usize, port: usize) -> (r: isize)
    requires
        old(manager).wf(),
        port < 8,
        start + len <= usize::MAX,
    ensures
        final(manager).wf(),
        final(manager).current() == old(manager).current(),
        ({
            let m = old(manager).current_pages();
            let s = page_floor(start as nat);
            let e = page_ceil((start + len) as nat);
            if range_overlaps(m, s, e) {
                r == -1 && final(manager).tasks() == old(manager).tasks()
            } else {
                &&& r == 0
                &&& final(manager).tasks().len() == old(manager).tasks().len()
                &&& forall|i: int| 0 <= i < old(manager).tasks().len() && i != old(manager).current()
                    ==> final(manager).tasks()[i] == old(manager).tasks()[i]
                &&& same_but_pages(final(manager).tasks()[old(manager).current() as int], old(manager).tasks()[old(manager).current() as int])
                &&& final(manager).current_pages() == map_range(m, s, e, perm_of_port(port as nat))
            }
        }),
{
    manager.mmap(start, len, port)
}

/// Unmaps `[start, start + len)` in the running task's address space; see [`TaskManager::unmap`].
pub fn unmap(manager: &mut TaskManager, start: usize, len: usize) -> (r: isize)
    requires
        old(manager).wf(),
        start + len <= usize::MAX,
    ensures
        final(manager).wf(),
        final(manager).current() == old(manager).current(),
        ({
            let m = old(manager).current_pages();
            let s = page_floor(start as nat);
            let e = page_ceil((start + len) as nat);
            if !range_fully_mapped(m, s, e) {
                r == -1 && final(manager).tasks() == old(manager).tasks()
            } else {
                &&& r == 0
                &&& final(manager).tasks().len() == old(manager).tasks().len()
                &&& forall|i: int| 0 <= i < old(manager).tasks().len() && i != old(manager).current()
                    ==> final(manager).tasks()[i] == old(manager).tasks()[i]
                &&& same_but_pages(final(manager).tasks()[old(manager).current() as int], old(manager).tasks()[old(manager).current() as int])
                &&& final(manager).current_pages() == unmap_range(m, s, e)
            }
        }),
{
    manager.unmap(start, len)
}

} // verus!
