use os4::config::{KERNEL_STACK_SIZE, MAX_SYSCALL_NUM, PAGE_SIZE};
use os4::frame_allocator::PhysPageNum;
use os4::memory_set::{permission_from_port, MemorySet, PERM_R, PERM_U, PERM_W};
use os4::task::{kernel_stack_position, TaskContext, TaskControlBlock, TaskStatsInfo, TaskStatus};
use os4::task_manager::{
    current_trap_cx, current_user_token, exit_current_and_run_next, get_task_info, mmap,
    record_syscall, run_first_task, suspend_current_and_run_next, unmap, SwitchAction, TaskManager,
};

fn manager(n: usize) -> TaskManager {
    let mut tasks = Vec::new();
    for i in 0..n {
        tasks.push(TaskControlBlock::new(
            MemorySet::new_bare(0x8000 + i),
            0x1_0000 + i,
            PhysPageNum(0x900 + i),
            i,
            0x8020_0000,
        ));
    }
    TaskManager::new(tasks)
}

#[test]
fn three_tasks_yield_round_robin() {
    let mut m = manager(3);
    run_first_task(&mut m, 100);
    assert_eq!(m.current_task(), 0);
    assert_eq!(m.task_status(0), TaskStatus::Running);
    assert_eq!(
        suspend_current_and_run_next(&mut m, 200),
        SwitchAction::Switch { current: 0, next: 1 }
    );
    assert_eq!(
        suspend_current_and_run_next(&mut m, 300),
        SwitchAction::Switch { current: 1, next: 2 }
    );
    assert_eq!(
        suspend_current_and_run_next(&mut m, 400),
        SwitchAction::Switch { current: 2, next: 0 }
    );
    assert_eq!(m.current_task(), 0);
    assert_eq!(m.task_status(0), TaskStatus::Running);
    assert_eq!(m.task_status(1), TaskStatus::Ready);
    assert_eq!(m.task_status(2), TaskStatus::Ready);
}

#[test]
fn n_yields_visit_every_task_once() {
    let n = 5;
    let mut m = manager(n);
    run_first_task(&mut m, 1);
    let mut seen = Vec::new();
    for _ in 0..n {
        match suspend_current_and_run_next(&mut m, 2) {
            SwitchAction::Switch { next, .. } => seen.push(next),
            SwitchAction::AllCompleted => panic!("a task was ready"),
        }
    }
    assert_eq!(seen, vec![1, 2, 3, 4, 0]);
}

#[test]
fn lone_task_yields_to_itself() {
    let mut m = manager(1);
    run_first_task(&mut m, 1);
    assert_eq!(
        suspend_current_and_run_next(&mut m, 2),
        SwitchAction::Switch { current: 0, next: 0 }
    );
    assert_eq!(m.task_status(0), TaskStatus::Running);
}

#[test]
fn exited_tasks_are_skipped_and_last_exit_halts() {
    let mut m = manager(3);
    run_first_task(&mut m, 1);
    assert_eq!(
        exit_current_and_run_next(&mut m, 2),
        SwitchAction::Switch { current: 0, next: 1 }
    );
    assert_eq!(
        suspend_current_and_run_next(&mut m, 3),
        SwitchAction::Switch { current: 1, next: 2 }
    );
    assert_eq!(
        suspend_current_and_run_next(&mut m, 4),
        SwitchAction::Switch { current: 2, next: 1 }
    );
    assert_eq!(
        exit_current_and_run_next(&mut m, 5),
        SwitchAction::Switch { current: 1, next: 2 }
    );
    assert_eq!(exit_current_and_run_next(&mut m, 6), SwitchAction::AllCompleted);
    for i in 0..3 {
        assert_eq!(m.task_status(i), TaskStatus::Exited);
    }
    assert_eq!(m.run_next_task(7), SwitchAction::AllCompleted);
    assert_eq!(m.find_next_task(), None);
}

#[test]
fn first_run_time_is_recorded_once() {
    let mut m = manager(2);
    run_first_task(&mut m, 1000);
    assert_eq!(get_task_info(&m).2, 1000);
    suspend_current_and_run_next(&mut m, 2000);
    assert_eq!(get_task_info(&m).2, 2000);
    suspend_current_and_run_next(&mut m, 3000);
    assert_eq!(m.current_task(), 0);
    assert_eq!(get_task_info(&m).2, 1000);
}

#[test]
fn syscall_counters_count_per_task() {
    let mut m = manager(2);
    run_first_task(&mut m, 1);
    record_syscall(&mut m, 64);
    record_syscall(&mut m, 64);
    record_syscall(&mut m, 93);
    let (status, counts, _) = get_task_info(&m);
    assert_eq!(status, TaskStatus::Running);
    assert_eq!(counts[64], 2);
    assert_eq!(counts[93], 1);
    assert_eq!(counts[0], 0);
    suspend_current_and_run_next(&mut m, 2);
    record_syscall(&mut m, MAX_SYSCALL_NUM - 1);
    let (_, counts, _) = get_task_info(&m);
    assert_eq!(counts[64], 0);
    assert_eq!(counts[MAX_SYSCALL_NUM - 1], 1);
}

#[test]
fn current_token_and_trap_context_follow_the_running_task() {
    let mut m = manager(2);
    run_first_task(&mut m, 1);
    assert_eq!(current_user_token(&m), 0x8000);
    assert_eq!(current_trap_cx(&m), PhysPageNum(0x900));
    suspend_current_and_run_next(&mut m, 2);
    assert_eq!(current_user_token(&m), 0x8001);
    assert_eq!(current_trap_cx(&m), PhysPageNum(0x901));
}

#[test]
fn map_overlap_is_rejected() {
    let mut m = manager(2);
    run_first_task(&mut m, 1);
    assert_eq!(mmap(&mut m, 0x4000, 2 * PAGE_SIZE, 1), 0);
    assert_eq!(mmap(&mut m, 0x5000, PAGE_SIZE, 3), -1);
    assert_eq!(mmap(&mut m, 0x3000, 2 * PAGE_SIZE, 3), -1);
    assert_eq!(mmap(&mut m, 0x6000, PAGE_SIZE, 3), 0);
    assert_eq!(unmap(&mut m, 0x4000, 3 * PAGE_SIZE), 0);
    assert_eq!(unmap(&mut m, 0x4000, PAGE_SIZE), -1);
}

#[test]
fn partial_unmap_is_rejected_without_effect() {
    let mut m = manager(1);
    run_first_task(&mut m, 1);
    assert_eq!(mmap(&mut m, 0x10000, PAGE_SIZE, 1), 0);
    assert_eq!(unmap(&mut m, 0x10000, 2 * PAGE_SIZE), -1);
    assert_eq!(unmap(&mut m, 0x10000, PAGE_SIZE), 0);
}

#[test]
fn map_then_unmap_round_trip() {
    let mut m = manager(1);
    run_first_task(&mut m, 1);
    assert_eq!(mmap(&mut m, 0x20000, 3 * PAGE_SIZE, 7), 0);
    assert_eq!(unmap(&mut m, 0x20000, 3 * PAGE_SIZE), 0);
    assert_eq!(unmap(&mut m, 0x20000, PAGE_SIZE), -1);
    assert_eq!(mmap(&mut m, 0x20000, 3 * PAGE_SIZE, 7), 0);
}

#[test]
fn mappings_are_per_task() {
    let mut m = manager(2);
    run_first_task(&mut m, 1);
    assert_eq!(mmap(&mut m, 0x4000, PAGE_SIZE, 3), 0);
    suspend_current_and_run_next(&mut m, 2);
    assert_eq!(mmap(&mut m, 0x4000, PAGE_SIZE, 3), 0);
    assert_eq!(unmap(&mut m, 0x4000, PAGE_SIZE), 0);
    suspend_current_and_run_next(&mut m, 3);
    assert_eq!(unmap(&mut m, 0x4000, PAGE_SIZE), 0);
}

#[test]
fn memory_set_records_permissions() {
    let mut ms = MemorySet::new_bare(7);
    assert_eq!(ms.token(), 7);
    ms.insert_framed_area(3, 5, permission_from_port(3));
    assert_eq!(ms.permission(3), Some(PERM_R | PERM_W | PERM_U));
    assert_eq!(ms.permission(4), Some(22));
    assert_eq!(ms.permission(5), None);
    assert!(ms.range_fully_mapped(3, 5));
    assert!(!ms.range_fully_mapped(3, 6));
    assert!(ms.range_overlaps(4, 10));
    assert!(!ms.range_overlaps(5, 10));
    ms.remove_area(3, 4);
    assert!(!ms.is_mapped(3));
    assert!(ms.is_mapped(4));
}

#[test]
fn port_bits_translate_to_permissions() {
    assert_eq!(permission_from_port(1), 2 | 16);
    assert_eq!(permission_from_port(2), 4 | 16);
    assert_eq!(permission_from_port(4), 8 | 16);
    assert_eq!(permission_from_port(7), 30);
}

#[test]
fn new_task_is_ready_with_zeroed_statistics() {
    let t = TaskControlBlock::new(MemorySet::new_bare(5), 0x3000, PhysPageNum(77), 2, 0x1234);
    assert_eq!(t.task_status, TaskStatus::Ready);
    assert_eq!(t.task_cx.ra, 0x1234);
    let (_, top) = kernel_stack_position(2);
    assert_eq!(t.task_cx.sp, top);
    assert_eq!(t.stats.first_run_time, 0);
    assert!(t.stats.system_call_record.iter().all(|c| *c == 0));
    assert_eq!(t.get_trap_cx(), PhysPageNum(77));
    assert_eq!(t.get_user_token(), 5);
    assert_eq!(t.base_size, 0x3000);
}

#[test]
fn kernel_stacks_are_separated_by_guard_pages() {
    let (b0, t0) = kernel_stack_position(0);
    assert_eq!(t0, usize::MAX - PAGE_SIZE + 1);
    assert_eq!(b0, t0 - KERNEL_STACK_SIZE);
    let (b1, t1) = kernel_stack_position(1);
    assert_eq!(t1, b0 - PAGE_SIZE);
    assert_eq!(b1, t1 - KERNEL_STACK_SIZE);
}

#[test]
fn stats_default_and_get_info() {
    let mut s = TaskStatsInfo::default();
    assert_eq!(s.first_run_time, 0);
    s.first_run_time = 9;
    s.system_call_record[3] = 4;
    let (rec, first) = s.get_info();
    assert_eq!(first, 9);
    assert_eq!(rec[3], 4);
}

#[test]
fn contexts_start_zeroed() {
    let z = TaskContext::zero_init();
    assert_eq!((z.ra, z.sp), (0, 0));
    let c = TaskContext::goto_trap_return(11, 22);
    assert_eq!((c.ra, c.sp), (11, 22));
    assert!(c.s.iter().all(|r| *r == 0));
}
