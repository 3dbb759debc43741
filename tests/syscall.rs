use os4::config::PAGE_SIZE;
use os4::frame_allocator::PhysPageNum;
use os4::memory_set::MemorySet;
use os4::syscall::{sys_exit, sys_get_time, sys_mmap, sys_munmap, sys_set_priority, sys_task_info, sys_yield, TimeVal};
use os4::task::{TaskControlBlock, TaskStatus};
use os4::task_manager::{record_syscall, run_first_task, SwitchAction, TaskManager};

fn manager(n: usize) -> TaskManager {
    let mut tasks = Vec::new();
    for i in 0..n {
        tasks.push(TaskControlBlock::new(MemorySet::new_bare(i), 0, PhysPageNum(i), i, 0));
    }
    let mut m = TaskManager::new(tasks);
    run_first_task(&mut m, 5_000);
    m
}

#[test]
fn mmap_twice_fails_then_munmap_succeeds() {
    let mut m = manager(1);
    assert_eq!(sys_mmap(&mut m, 0x1000, 4096, 0x3), 0);
    assert_eq!(sys_mmap(&mut m, 0x1000, 4096, 0x3), -1);
    assert_eq!(sys_munmap(&mut m, 0x1000, 4096), 0);
}

#[test]
fn mmap_rejects_bad_arguments() {
    let mut m = manager(1);
    assert_eq!(sys_mmap(&mut m, 0x1001, 4096, 0x3), -1);
    assert_eq!(sys_mmap(&mut m, 0x1000, 4096, 0), -1);
    assert_eq!(sys_mmap(&mut m, 0x1000, 4096, 0x8), -1);
    assert_eq!(sys_mmap(&mut m, 0x1000, 4096, 0xf), -1);
    assert_eq!(sys_mmap(&mut m, usize::MAX - PAGE_SIZE + 1, 2 * PAGE_SIZE, 1), -1);
    assert_eq!(sys_munmap(&mut m, 0x1000, 4096), -1);
    assert_eq!(sys_mmap(&mut m, 0x1000, 4096, 0x7), 0);
}

#[test]
fn mmap_rounds_length_up_to_pages() {
    let mut m = manager(1);
    assert_eq!(sys_mmap(&mut m, 0x2000, 4097, 0x1), 0);
    assert_eq!(sys_mmap(&mut m, 0x3000, 1, 0x1), -1);
    assert_eq!(sys_mmap(&mut m, 0x4000, 1, 0x1), 0);
    assert_eq!(sys_munmap(&mut m, 0x2000, 3 * PAGE_SIZE), 0);
}

#[test]
fn mmap_of_zero_length_maps_nothing() {
    let mut m = manager(1);
    assert_eq!(sys_mmap(&mut m, 0x2000, 0, 0x1), 0);
    assert_eq!(sys_munmap(&mut m, 0x2000, PAGE_SIZE), -1);
}

#[test]
fn munmap_rejects_bad_arguments_and_holes() {
    let mut m = manager(1);
    assert_eq!(sys_mmap(&mut m, 0x1000, 2 * PAGE_SIZE, 0x3), 0);
    assert_eq!(sys_munmap(&mut m, 0x1001, PAGE_SIZE), -1);
    assert_eq!(sys_munmap(&mut m, 0x1000, 100), -1);
    assert_eq!(sys_munmap(&mut m, 0x1000, 3 * PAGE_SIZE), -1);
    assert_eq!(sys_munmap(&mut m, 0x2000, PAGE_SIZE), 0);
    assert_eq!(sys_munmap(&mut m, 0x1000, 2 * PAGE_SIZE), -1);
    assert_eq!(sys_munmap(&mut m, 0x1000, PAGE_SIZE), 0);
}

#[test]
fn get_time_splits_microseconds() {
    assert_eq!(sys_get_time(1_234_567), TimeVal { sec: 1, usec: 234_567 });
    assert_eq!(sys_get_time(999_999), TimeVal { sec: 0, usec: 999_999 });
    assert_eq!(sys_get_time(0), TimeVal { sec: 0, usec: 0 });
}

#[test]
fn set_priority_is_unsupported() {
    assert_eq!(sys_set_priority(16), -1);
    assert_eq!(sys_set_priority(-3), -1);
}

#[test]
fn yield_returns_zero_and_switches() {
    let mut m = manager(3);
    assert_eq!(sys_yield(&mut m, 6_000), (0, SwitchAction::Switch { current: 0, next: 1 }));
    assert_eq!(sys_yield(&mut m, 7_000), (0, SwitchAction::Switch { current: 1, next: 2 }));
    assert_eq!(sys_yield(&mut m, 8_000), (0, SwitchAction::Switch { current: 2, next: 0 }));
}

#[test]
fn exit_moves_on_and_halts_at_the_end() {
    let mut m = manager(2);
    assert_eq!(sys_exit(&mut m, 0, 6_000), SwitchAction::Switch { current: 0, next: 1 });
    assert_eq!(m.task_status(0), TaskStatus::Exited);
    assert_eq!(sys_exit(&mut m, -1, 7_000), SwitchAction::AllCompleted);
}

#[test]
fn task_info_reports_status_counts_and_elapsed_ms() {
    let mut m = manager(2);
    record_syscall(&mut m, 169);
    record_syscall(&mut m, 410);
    let info = sys_task_info(&m, 5_000 + 2_500_000);
    assert_eq!(info.status, TaskStatus::Running);
    assert_eq!(info.syscall_times[169], 1);
    assert_eq!(info.syscall_times[410], 1);
    assert_eq!(info.syscall_times[64], 0);
    assert_eq!(info.time, 2_500);
    assert_eq!(sys_task_info(&m, 4_000).time, 0);
}
