//! Task control blocks: status, saved kernel context, statistics and address space.
use vstd::prelude::*;

use crate::config::{KERNEL_STACK_SIZE, MAX_SYSCALL_NUM, PAGE_SIZE};
use crate::frame_allocator::PhysPageNum;
use crate::memory_set::MemorySet;

verus! {

/// Execution status of a task.
#[derive(Clone, Copy, PartialEq, Eq, Structural, Debug)]
pub enum TaskStatus {
    UnInit,
    Ready,
    Running,
    Exited,
}

/// Per-task statistics: when the task was first scheduled (0 while it never
/// was), and how often it made each syscall.
#[derive(Clone, Copy, Debug)]
pub struct TaskStatsInfo {
    pub first_run_time: usize,
    pub system_call_record: [u32; MAX_SYSCALL_NUM],
}

impl Default for TaskStatsInfo {
    fn default() -> (r: Self)
        ensures
            r.first_run_time == 0,
            forall|i: int| 0 <= i < MAX_SYSCALL_NUM ==> r.system_call_record[i] == 0,
    {
        TaskStatsInfo { first_run_time: 0, system_call_record: [0u32; MAX_SYSCALL_NUM] }
    }
}

impl TaskStatsInfo {
    /// The syscall counters and the first-scheduled time.
    pub fn get_info(&self) -> (r: ([u32; MAX_SYSCALL_NUM], usize))
        ensures
            r.0 == self.system_call_record,
            r.1 == self.first_run_time,
    {
        (self.system_call_record, self.first_run_time)
    }
}

/// Callee-saved registers that resume kernel-mode execution of a task.
#[derive(Clone, Copy, Debug)]
pub struct TaskContext {
    /// Return address: where execution resumes after the switch.
    pub ra: usize,
    /// Kernel stack pointer.
    pub sp: usize,
    pub s: [usize; 12],
}

impl TaskContext {
    /// An all-zero context, to be overwritten by a switch.
    pub fn zero_init() -> (r: Self)
        ensures
            r.ra == 0,
            r.sp == 0,
            forall|i: int| 0 <= i < 12 ==> r.s[i] == 0,
    {
        TaskContext { ra: 0, sp: 0, s: [0usize; 12] }
    }

    /// A context that enters `trap_return` on the kernel stack whose top is `kstack_ptr`.
    pub fn goto_trap_return(trap_return: usize, kstack_ptr: usize) -> (r: Self)
        ensures
            r.ra == trap_return,
            r.sp == kstack_ptr,
            forall|i: int| 0 <= i < 12 ==> r.s[i] == 0,
    {
        TaskContext { ra: trap_return, sp: kstack_ptr, s: [0usize; 12] }
    }
}

/// Lowest virtual address of the trampoline page, the highest page of the address space.
pub open spec fn trampoline() -> int {
    usize::MAX + 1 - PAGE_SIZE
}

/// Kernel stacks fit below the trampoline for task index `app_id`.
pub open spec fn kernel_stack_fits(app_id: nat) -> bool {
    (app_id + 1) * (KERNEL_STACK_SIZE + PAGE_SIZE) <= trampoline()
}

/// Bottom and top of the kernel stack of task `app_id`: stacks sit below the
/// trampoline, each followed by an unmapped guard page.
pub fn kernel_stack_position(app_id: usize) -> (r: (usize, usize))
    requires
        kernel_stack_fits(app_id as nat),
    ensures
        r.1 == trampoline() - app_id * (KERNEL_STACK_SIZE + PAGE_SIZE),
        r.0 == r.1 - KERNEL_STACK_SIZE,
{
    let trampoline: usize = usize::MAX - PAGE_SIZE + 1;
    assert(app_id * (KERNEL_STACK_SIZE + PAGE_SIZE) <= (app_id + 1) * (KERNEL_STACK_SIZE + PAGE_SIZE)) by (nonlinear_arith);
    let top = trampoline - app_id * (KERNEL_STACK_SIZE + PAGE_SIZE);
    let bottom = top - KERNEL_STACK_SIZE;
    (bottom, top)
}

/// Kernel bookkeeping of one task.
pub struct TaskControlBlock {
    pub task_status: TaskStatus,
    pub task_cx: TaskContext,
    pub stats: TaskStatsInfo,
    pub memory_set: MemorySet,
    /// Physical page that holds the task's trap context.
    pub trap_cx_ppn: PhysPageNum,
    /// Size of the initial user stack region: the user stack pointer at start.
    pub base_size: usize,
}

impl TaskControlBlock {
    /// Physical page of the task's trap context, cached at construction.
    pub fn get_trap_cx(&self) -> (r: PhysPageNum)
        ensures
            r == self.trap_cx_ppn,
    {
        self.trap_cx_ppn
    }

    /// Token of the task's address space.
    pub fn get_user_token(&self) -> (r: usize)
        ensures
            r == self.memory_set.spec_token(),
    {
        self.memory_set.token()
    }

    /// A ready task with index `app_id` over the address space `memory_set`,
    /// built from the task's image, whose user stack starts at `user_sp` and
    /// whose trap-context page is backed by frame `trap_cx_ppn`. Its first
    /// switch-in enters `trap_return` on its own kernel stack; its statistics
    /// start at zero.
    pub fn new(
        memory_set: MemorySet,
        user_sp: usize,
        trap_cx_ppn: PhysPageNum,
        app_id: usize,
        trap_return: usize,
    ) -> (r: Self)
        requires
            kernel_stack_fits(app_id as nat),
        ensures
            r.task_status == TaskStatus::Ready,
            r.task_cx.ra == trap_return,
            r.task_cx.sp == trampoline() - app_id * (KERNEL_STACK_SIZE + PAGE_SIZE),
            forall|i: int| 0 <= i < 12 ==> r.task_cx.s[i] == 0,
            r.stats.first_run_time == 0,
            forall|i: int| 0 <= i < MAX_SYSCALL_NUM ==> r.stats.system_call_record[i] == 0,
            r.memory_set == memory_set,
            r.trap_cx_ppn == trap_cx_ppn,
            r.base_size == user_sp,
    {
        let (_kernel_stack_bottom, kernel_stack_top) = kernel_stack_position(app_id);
        TaskControlBlock {
            task_status: TaskStatus::Ready,
            task_cx: TaskContext::goto_trap_return(trap_return, kernel_stack_top),
            stats: TaskStatsInfo::default(),
            memory_set,
            trap_cx_ppn,
            base_size: user_sp,
        }
    }
}

} // verus!
