//! Process syscalls: what each call decides and returns. Writing results into
//! the caller's memory and carrying out context switches is left to the caller.
use vstd::prelude::*;

use crate::config::{MAX_SYSCALL_NUM, PAGE_SIZE};
use crate::memory_set::{map_range, perm_of_port, range_fully_mapped, range_overlaps, unmap_range};
use crate::task::TaskStatus;
use crate::task_manager::{
    action_of, exit_current_and_run_next, exit_step, find_next, get_task_info, mmap, page_ceil,
    page_floor, same_but_pages, suspend_current_and_run_next, unmap, yield_step, SwitchAction,
    TaskManager,
};

verus! {

/// Seconds and microseconds.
#[derive(Clone, Copy, PartialEq, Eq, Structural, Debug)]
pub struct TimeVal {
    pub sec: usize,
    pub usec: usize,
}

/// What `task_info` reports of the running task.
#[derive(Clone, Copy, Debug)]
pub struct TaskInfo {
    pub status: TaskStatus,
    pub syscall_times: [u32; MAX_SYSCALL_NUM],
    /// Milliseconds since the task was first scheduled.
    pub time: usize,
}

/// Number of pages needed to cover `len` bytes.
pub open spec fn pages_for(len: nat) -> nat {
    ((len + PAGE_SIZE - 1) as int / PAGE_SIZE as int) as nat
}

/// The arguments of `mmap` that are accepted: a page-aligned start, permission
/// bits within read/write/execute and not empty, and a rounded-up region that
/// ends inside the address space.
pub open spec fn mmap_args_valid(start: nat, len: nat, port: nat) -> bool {
    &&& start % (PAGE_SIZE as nat) == 0
    &&& 0 < port < 8
    &&& start + pages_for(len) * PAGE_SIZE <= usize::MAX
}

/// The arguments of `munmap` that are accepted: a page-aligned start and length
/// for a region that ends inside the address space.
pub open spec fn munmap_args_valid(start: nat, len: nat) -> bool {
    &&& start % (PAGE_SIZE as nat) == 0
    &&& len % (PAGE_SIZE as nat) == 0
    &&& start + len <= usize::MAX
}

/// The running task exits with `exit_code`; the next ready task is scheduled at
/// time `now`. The caller switches as told and never returns to the task.
pub fn sys_exit(manager: &mut TaskManager, exit_code: i32, now: usize) -> (r: SwitchAction)
    requires
        old(manager).wf(),
    ensures
        final(manager).wf(),
        (final(manager).statuses(), final(manager).current()) == exit_step(old(manager).statuses(), old(manager).current()),
        r == action_of(
            find_next(old(manager).statuses().update(old(manager).current() as int, TaskStatus::Exited), old(manager).current()),
            old(manager).current(),
        ),
{
    exit_current_and_run_next(manager, now)
}

/// The running task gives up the processor; the next ready task is scheduled
/// at time `now`. The task sees 0 once it is resumed.
pub fn sys_yield(manager: &mut TaskManager, now: usize) -> (r: (isize, SwitchAction))
    requires
        old(manager).wf(),
    ensures
        final(manager).wf(),
        r.0 == 0,
        (final(manager).statuses(), final(manager).current()) == yield_step(old(manager).statuses(), old(manager).current()),
        r.1 == action_of(
            find_next(old(manager).statuses().update(old(manager).current() as int, TaskStatus::Ready), old(manager).current()),
            old(manager).current(),
        ),
{
    let action = suspend_current_and_run_next(manager, now);
    (0, action)
}

/// The time `us` microseconds, split into seconds and microseconds.
pub fn sys_get_time(us: usize) -> (r: TimeVal)
    ensures
        r.sec == us / 1_000_000,
        r.usec == us % 1_000_000,
        r.sec * 1_000_000 + r.usec == us,
{
    TimeVal { sec: us / 1_000_000, usec: us % 1_000_000 }
}

/// Priorities are not supported: always -1.
pub fn sys_set_priority(_prio: isize) -> (r: isize)
    ensures
        r == -1,
{
    -1
}

/// Maps `len` bytes, rounded up to whole pages, at `start` in the running
/// task's address space with permission bits `port`. Returns -1 and changes
/// nothing when the arguments are not accepted or some page is already mapped;
/// 0 otherwise.
pub fn sys_mmap(manager: &mut TaskManager, start: usize, len: usize, port: usize) -> (r: isize)
    requires
        old(manager).wf(),
    ensures
        final(manager).wf(),
        final(manager).current() == old(manager).current(),
        ({
            let m = old(manager).current_pages();
            let s = page_floor(start as nat);
            let e = s + pages_for(len as nat);
            if !mmap_args_valid(start as nat, len as nat, port as nat) || range_overlaps(m, s, e) {
                r == -1 && final(manager).tasks() == old(manager).tasks()
            } else {
                &&& r == 0
                &&& final(manager).tasks().len() == old(manager).tasks().len()
                &&& forall|i: int| 0 <= i < old(manager).tasks().len() && i != old(manager).current()
                    ==> final(manager).tasks()[i] == old(manager).tasks()[i]
                &&& same_but_pages(final(manager).tasks()[old(manager).current() as int], old(manager).tasks()[old(manager).current() as int])
                &&& final(manager).current_pages() == map_range(m, s, e, perm_of_port(port as nat))
            }
        }),
{
    if start % PAGE_SIZE != 0 {
        return -1;
    }
    if port & !0x7usize != 0 || port & 0x7usize == 0 {
        assert(port & !0x7usize != 0 || port & 0x7usize == 0 <==> !(0 < port < 8)) by (bit_vector);
        return -1;
    }
    assert(port & !0x7usize != 0 || port & 0x7usize == 0 <==> !(0 < port < 8)) by (bit_vector);
    let pages = len / PAGE_SIZE + if len % PAGE_SIZE == 0 { 0 } else { 1 };
    assert(pages == pages_for(len as nat)) by (nonlinear_arith)
        requires
            pages == len / 4096 + if len % 4096 == 0 { 0int } else { 1int },
            len >= 0,
    ;
    let room = usize::MAX - start;
    if pages > room / PAGE_SIZE {
        assert(pages * 4096 > room) by (nonlinear_arith)
            requires
                pages > room / 4096,
                room >= 0,
        ;
        return -1;
    }
    assert(pages * 4096 <= room) by (nonlinear_arith)
        requires
            pages <= room / 4096,
            room >= 0,
    ;
    let align_len = pages * PAGE_SIZE;
    assert(page_ceil((start + align_len) as nat) == page_floor(start as nat) + pages) by (nonlinear_arith)
        requires
            start % 4096 == 0,
            align_len == pages * 4096,
            start >= 0,
            pages >= 0,
    ;
    mmap(manager, start, align_len, port)
}

/// Unmaps the `len` bytes at `start` from the running task's address space.
/// Returns -1 and changes nothing when the arguments are not accepted or some
/// page of the region is not mapped; 0 otherwise.
pub fn sys_munmap(manager: &mut TaskManager, start: usize, len: usize) -> (r: isize)
    requires
        old(manager).wf(),
    ensures
        final(manager).wf(),
        final(manager).current() == old(manager).current(),
        ({
            let m = old(manager).current_pages();
            let s = page_floor(start as nat);
            let e = page_floor((start + len) as nat);
            if !munmap_args_valid(start as nat, len as nat) || !range_fully_mapped(m, s, e) {
                r == -1 && final(manager).tasks() == old(manager).tasks()
            } else {
                &&& r == 0
                &&& final(manager).tasks().len() == old(manager).tasks().len()
                &&& forall|i: int| 0 <= i < old(manager).tasks().len() && i != old(manager).current()
                    ==> final(manager).tasks()[i] == old(manager).tasks()[i]
                &&& same_but_pages(final(manager).tasks()[old(manager).current() as int], old(manager).tasks()[old(manager).current() as int])
                &&& final(manager).current_pages() == unmap_range(m, s, e)
            }
        }),
{
    if start % PAGE_SIZE != 0 || len % PAGE_SIZE != 0 {
        return -1;
    }
    if len > usize::MAX - start {
        return -1;
    }
    assert(page_ceil((start + len) as nat) == page_floor((start + len) as nat)) by (nonlinear_arith)
        requires
            start % 4096 == 0,
            len % 4096 == 0,
            start >= 0,
            len >= 0,
    ;
    unmap(manager, start, len)
}

/// What `task_info` reports of the running task at time `now_us`: its status,
/// its syscall counters and the whole milliseconds since it was first
/// scheduled (0 if the clock reads earlier).
pub fn sys_task_info(manager: &TaskManager, now_us: usize) -> (r: TaskInfo)
    requires
        manager.wf(),
    ensures
        ({
            let t = manager.tasks()[manager.current() as int];
            &&& r.status == t.task_status
            &&& r.syscall_times == t.stats.system_call_record
            &&& r.time == (if now_us >= t.stats.first_run_time { (now_us - t.stats.first_run_time) / 1000 } else { 0int })
        }),
{
    let (status, syscall_times, first_run_time) = get_task_info(manager);
    let elapsed = if now_us >= first_run_time { now_us - first_run_time } else { 0 };
    TaskInfo { status, syscall_times, time: elapsed / 1000 }
}

} // verus!
