use easy_fs::syscall::{
    sys_get_time, sys_mmap, sys_munmap, sys_sbrk, sys_task_info, MemoryPlan, PAGE_SIZE,
};
use easy_fs::task::{TaskControlBlock, TaskStatus, MAX_SYSCALL_NUM};

#[test]
fn syscall_counts_accumulate() {
    let mut tcb = TaskControlBlock::default();
    assert_eq!(tcb.get_syscall_count(64), 0);
    tcb.add_syscall_count(64);
    tcb.add_syscall_count(64);
    tcb.add_syscall_count(93);
    assert_eq!(tcb.get_syscall_count(64), 2);
    assert_eq!(tcb.get_syscall_count(93), 1);
    assert_eq!(tcb.get_syscall_count(1), 0);
    assert_eq!(tcb.syscall_counts.len(), 2);
    tcb.reset_syscall_counts();
    assert_eq!(tcb.get_syscall_count(64), 0);
}

#[test]
fn start_time_is_set_once() {
    let mut tcb = TaskControlBlock::default();
    assert!(tcb.task_status == TaskStatus::UnInit);
    tcb.set_start_time(10);
    tcb.set_start_time(20);
    assert_eq!(tcb.start_time_ms, Some(10));
}

#[test]
fn get_time_splits_microseconds() {
    let t = sys_get_time(3_250_000);
    assert_eq!(t.sec, 3);
    assert_eq!(t.usec, 250_000);
}

#[test]
fn task_info_reports_counts_and_time() {
    let mut tcb = TaskControlBlock::default();
    tcb.set_start_time(1_000);
    tcb.add_syscall_count(169);
    let info = sys_task_info(&tcb, 501_000);
    assert!(info.status == TaskStatus::Running);
    assert_eq!(info.time, 500);
    assert_eq!(info.syscall_times.len(), MAX_SYSCALL_NUM);
    assert_eq!(info.syscall_times[169], 1);
    assert_eq!(info.syscall_times[0], 0);
}

#[test]
fn mmap_decisions() {
    assert_eq!(sys_mmap(1, 10, 1), MemoryPlan::Reject);
    assert_eq!(sys_mmap(1, usize::MAX, 1), MemoryPlan::Reject);
    assert_eq!(sys_mmap(PAGE_SIZE, usize::MAX, 9), MemoryPlan::Reject);
    assert_eq!(sys_mmap(0, 10, 0), MemoryPlan::Reject);
    assert_eq!(sys_mmap(0, 10, 8), MemoryPlan::Reject);
    assert_eq!(sys_mmap(PAGE_SIZE, 0, 3), MemoryPlan::Nothing);
    assert_eq!(
        sys_mmap(PAGE_SIZE, 100, 3),
        MemoryPlan::MapPages { start: PAGE_SIZE, end: PAGE_SIZE + 100, perm: 16 | 2 | 4 }
    );
    assert_eq!(sys_mmap(0, 1, 4), MemoryPlan::MapPages { start: 0, end: 1, perm: 16 | 8 });
}

#[test]
fn munmap_decisions() {
    assert_eq!(sys_munmap(7, 10), MemoryPlan::Reject);
    assert_eq!(sys_munmap(7, usize::MAX), MemoryPlan::Reject);
    assert_eq!(sys_munmap(usize::MAX - 4095, 0), MemoryPlan::Nothing);
    assert_eq!(sys_munmap(0, 0), MemoryPlan::Nothing);
    assert_eq!(sys_munmap(PAGE_SIZE, 5), MemoryPlan::UnmapPages { start: PAGE_SIZE, end: PAGE_SIZE + 5 });
}

#[test]
fn sbrk_result() {
    assert_eq!(sys_sbrk(Some(4096)), 4096);
    assert_eq!(sys_sbrk(None), -1);
}
