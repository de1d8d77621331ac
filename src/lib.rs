//! The inode layer of a small filesystem: directory lookup, creation, hard links,
//! byte-level reads and writes with sparse growth, truncation and deletion on the
//! last unlink, over an in-memory table of inode records. Beside it, the task
//! bookkeeping and the argument checks of a few process system calls.

pub mod fs;
pub mod laws;
pub mod syscall;
pub mod task;
pub mod vfs;
