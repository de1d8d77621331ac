use vstd::prelude::*;
use crate::task::{TaskControlBlock, TaskStatus, MAX_SYSCALL_NUM};

verus! {

/// Size in bytes of one page of memory.
pub const PAGE_SIZE: usize = 4096;

/// Page permission: readable.
pub const MAP_PERM_R: u8 = 2;

/// Page permission: writable.
pub const MAP_PERM_W: u8 = 4;

/// Page permission: executable.
pub const MAP_PERM_X: u8 = 8;

/// Page permission: reachable from user mode.
pub const MAP_PERM_U: u8 = 16;

/// A time of day as seconds and microseconds.
#[derive(Debug)]
pub struct TimeVal {
    pub sec: usize,
    pub usec: usize,
}

/// What a task reports of itself: its status, how many times it made each system
/// call, and how long it has run, in milliseconds.
pub struct TaskInfo {
    pub status: TaskStatus,
    /// entry `i` counts the calls of system call `i`
    pub syscall_times: Vec<u32>,
    pub time: usize,
}

/// What a memory-mapping system call asks of the address space.
#[derive(Debug, PartialEq, Eq, Structural)]
pub enum MemoryPlan {
    /// the arguments are rejected: the call returns -1
    Reject,
    /// there is nothing to do: the call returns 0
    Nothing,
    /// map the pages of `[start, end)` with the permission bits `perm`
    MapPages { start: usize, end: usize, perm: u8 },
    /// unmap the pages of `[start, end)`
    UnmapPages { start: usize, end: usize },
}

/// The permission bits that a mapping request's `port` asks for: bit 0 reads,
/// bit 1 writes, bit 2 executes; the pages are always reachable from user mode.
pub open spec fn perm_of_port(port: usize) -> u8 {
    (MAP_PERM_U + (if port % 2 == 1 {
        MAP_PERM_R
    } else {
        0
    }) + (if (port / 2) % 2 == 1 {
        MAP_PERM_W
    } else {
        0
    }) + (if (port / 4) % 2 == 1 {
        MAP_PERM_X
    } else {
        0
    })) as u8
}

/// Split a time in microseconds into seconds and microseconds.
pub fn sys_get_time(us: usize) -> (r: TimeVal)
    ensures
        r.sec == us / 1_000_000,
        r.usec == us % 1_000_000,
{
    TimeVal { sec: us / 1_000_000, usec: us % 1_000_000 }
}

/// What the running task reports at time `now_us`: it is running, its system-call
/// counts, and the milliseconds since its recorded start (0 if none is recorded).
pub fn sys_task_info(tcb: &TaskControlBlock, now_us: usize) -> (r: TaskInfo)
    requires
        tcb.wf(),
        tcb.start_time_ms.unwrap_or(0) <= now_us,
    ensures
        r.status == TaskStatus::Running,
        r.time == (now_us - tcb.start_time_ms.unwrap_or(0)) / 1000,
        r.syscall_times@.len() == MAX_SYSCALL_NUM,
        forall|i: int| 0 <= i < MAX_SYSCALL_NUM ==> r.syscall_times@[i] == tcb.count_spec(i as usize),
{
    let start = match tcb.start_time_ms {
        Some(t) => t,
        None => 0,
    };
    let mut syscall_times: Vec<u32> = Vec::new();
    let mut id: usize = 0;
    while id < MAX_SYSCALL_NUM
        invariant
            tcb.wf(),
            0 <= id <= MAX_SYSCALL_NUM,
            syscall_times@.len() == id,
            forall|i: int| 0 <= i < id ==> syscall_times@[i] == tcb.count_spec(i as usize),
        decreases MAX_SYSCALL_NUM - id,
    {
        syscall_times.push(tcb.get_syscall_count(id));
        id = id + 1;
    }
    TaskInfo { status: TaskStatus::Running, syscall_times, time: (now_us - start) / 1000 }
}

/// A mapping request is acceptable when `start` is page aligned and `port` asks
/// for some permission and for nothing beyond read, write and execute.
fn is_sys_mmap_params_ok(start: usize, port: usize) -> (r: bool)
    ensures
        r == (start % PAGE_SIZE == 0 && 1 <= port <= 7),
{
    if start % PAGE_SIZE != 0 {
        return false;
    }
    if port > 7 {
        return false;
    }
    if port == 0 {
        return false;
    }
    true
}

/// Decide a request to map `len` bytes at `start` with the permissions `port`.
pub fn sys_mmap(start: usize, len: usize, port: usize) -> (r: MemoryPlan)
    requires
        (start % PAGE_SIZE == 0 && 1 <= port <= 7 && len > 0) ==> start + len <= usize::MAX,
    ensures
        !(start % PAGE_SIZE == 0 && 1 <= port <= 7) ==> r == MemoryPlan::Reject,
        (start % PAGE_SIZE == 0 && 1 <= port <= 7 && len == 0) ==> r == MemoryPlan::Nothing,
        (start % PAGE_SIZE == 0 && 1 <= port <= 7 && len > 0) ==> r == (MemoryPlan::MapPages {
            start,
            end: (start + len) as usize,
            perm: perm_of_port(port),
        }),
{
    if !is_sys_mmap_params_ok(start, port) {
        return MemoryPlan::Reject;
    }
    if len == 0 {
        return MemoryPlan::Nothing;
    }
    let mut perm: u8 = MAP_PERM_U;
    if port % 2 == 1 {
        perm = perm + MAP_PERM_R;
    }
    if (port / 2) % 2 == 1 {
        perm = perm + MAP_PERM_W;
    }
    if (port / 4) % 2 == 1 {
        perm = perm + MAP_PERM_X;
    }
    MemoryPlan::MapPages { start, end: start + len, perm }
}

/// Decide a request to unmap `len` bytes at `start`.
pub fn sys_munmap(start: usize, len: usize) -> (r: MemoryPlan)
    requires
        (start % PAGE_SIZE == 0 && len > 0) ==> start + len <= usize::MAX,
    ensures
        start % PAGE_SIZE != 0 ==> r == MemoryPlan::Reject,
        (start % PAGE_SIZE == 0 && len == 0) ==> r == MemoryPlan::Nothing,
        (start % PAGE_SIZE == 0 && len > 0) ==> r == (MemoryPlan::UnmapPages {
            start,
            end: (start + len) as usize,
        }),
{
    if start % PAGE_SIZE != 0 {
        return MemoryPlan::Reject;
    }
    if len == 0 {
        return MemoryPlan::Nothing;
    }
    MemoryPlan::UnmapPages { start, end: start + len }
}

/// The result of moving the program break: the old break, or -1 when the move
/// was refused.
pub fn sys_sbrk(old_brk: Option<usize>) -> (r: isize)
    ensures
        match old_brk {
            Some(b) => r == b as isize,
            None => r == -1,
        },
{
    match old_brk {
        Some(b) => b as isize,
        None => -1,
    }
}

} // verus!
