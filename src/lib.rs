//! Memory- and task-management core of a small single-core kernel: a
//! physical frame allocator, task control blocks, a round-robin task
//! manager with per-task address spaces, and the process syscalls that
//! drive them.

pub mod config;
pub mod frame_allocator;
pub mod memory_set;
pub mod syscall;
pub mod task;
pub mod task_manager;
