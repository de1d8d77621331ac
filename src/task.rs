use vstd::prelude::*;

verus! {

/// The number of distinct system call ids that a task's statistics cover.
pub const MAX_SYSCALL_NUM: usize = 500;

/// The status of a task in its life cycle.
#[derive(Copy, Clone, PartialEq, Eq, Structural, Debug)]
pub enum TaskStatus {
    /// uninitialized
    UnInit,
    /// ready to run
    Ready,
    /// running
    Running,
    /// exited
    Exited,
}

/// How many times one system call was made.
#[derive(Copy, Clone, Debug)]
pub struct SyscallRecord {
    pub syscall_id: usize,
    pub count: u32,
}

/// No two records speak of the same system call.
pub open spec fn records_unique(recs: Seq<SyscallRecord>) -> bool {
    forall|i: int, j: int|
        0 <= i < j < recs.len() ==> recs[i].syscall_id != recs[j].syscall_id
}

/// Some record speaks of `id`.
pub open spec fn has_record(recs: Seq<SyscallRecord>, id: usize) -> bool {
    exists|i: int| 0 <= i < recs.len() && recs[i].syscall_id == id
}

/// The count that the records hold for `id`: that of its record, or 0 if it has none.
pub open spec fn count_of(recs: Seq<SyscallRecord>, id: usize) -> u32 {
    if has_record(recs, id) {
        recs[choose|i: int| 0 <= i < recs.len() && recs[i].syscall_id == id].count
    } else {
        0
    }
}

proof fn lemma_count_at(recs: Seq<SyscallRecord>, j: int)
    requires
        records_unique(recs),
        0 <= j < recs.len(),
    ensures
        count_of(recs, recs[j].syscall_id) == recs[j].count,
{
    let id = recs[j].syscall_id;
    assert(has_record(recs, id));
    let i = choose|i: int| 0 <= i < recs.len() && recs[i].syscall_id == id;
    assert(i == j);
}

/// The task control block of a task: its status, its system-call statistics and
/// the time at which it first ran.
#[derive(Clone)]
pub struct TaskControlBlock {
    /// The task status in its life cycle
    pub task_status: TaskStatus,
    /// One record per system call id that the task has called
    pub syscall_counts: Vec<SyscallRecord>,
    pub start_time_ms: Option<usize>,
}

impl TaskControlBlock {
    /// The statistics hold one record per system call id.
    pub open spec fn wf(&self) -> bool {
        records_unique(self.syscall_counts@)
    }

    /// How many times the call `id` was counted.
    pub open spec fn count_spec(&self, id: usize) -> u32 {
        count_of(self.syscall_counts@, id)
    }

    /// Count one more call of `syscall_id`.
    pub fn add_syscall_count(&mut self, syscall_id: usize)
        requires
            old(self).wf(),
            old(self).count_spec(syscall_id) < u32::MAX,
        ensures
            final(self).wf(),
            final(self).count_spec(syscall_id) == old(self).count_spec(syscall_id) + 1,
            forall|id: usize|
                id != syscall_id ==> final(self).count_spec(id) == old(self).count_spec(id),
            final(self).task_status == old(self).task_status,
            final(self).start_time_ms == old(self).start_time_ms,
    {
        let ghost recs0 = self.syscall_counts@;
        let n = self.syscall_counts.len();
        let mut i: usize = 0;
        while i < n
            invariant
                n == self.syscall_counts.len(),
                self.syscall_counts@ == recs0,
                *self == *old(self),
                records_unique(recs0),
                count_of(recs0, syscall_id) < u32::MAX,
                0 <= i <= n,
                forall|k: int| 0 <= k < i ==> recs0[k].syscall_id != syscall_id,
            decreases n - i,
        {
            if self.syscall_counts[i].syscall_id == syscall_id {
                proof {
                    lemma_count_at(recs0, i as int);
                }
                let mut rec = self.syscall_counts[i];
                rec.count = rec.count + 1;
                self.syscall_counts.set(i, rec);
                proof {
                    let recs1 = self.syscall_counts@;
                    assert(records_unique(recs1));
                    lemma_count_at(recs1, i as int);
                    assert forall|id: usize| id != syscall_id implies count_of(recs1, id) == count_of(
                        recs0,
                        id,
                    ) by {
                        if has_record(recs0, id) {
                            let k = choose|k: int| 0 <= k < recs0.len() && recs0[k].syscall_id == id;
                            lemma_count_at(recs0, k);
                            lemma_count_at(recs1, k);
                        } else {
                            assert(!has_record(recs1, id));
                        }
                    }
                }
                return;
            }
            i = i + 1;
        }
        assert(!has_record(recs0, syscall_id));
        self.syscall_counts.push(SyscallRecord { syscall_id, count: 1 });
        proof {
            let recs1 = self.syscall_counts@;
            assert(records_unique(recs1));
            lemma_count_at(recs1, n as int);
            assert forall|id: usize| id != syscall_id implies count_of(recs1, id) == count_of(
                recs0,
                id,
            ) by {
                if has_record(recs0, id) {
                    let k = choose|k: int| 0 <= k < recs0.len() && recs0[k].syscall_id == id;
                    lemma_count_at(recs0, k);
                    lemma_count_at(recs1, k);
                } else {
                    assert(!has_record(recs1, id));
                }
            }
        }
    }

    /// Forget every system-call record.
    pub fn reset_syscall_counts(&mut self)
        ensures
            final(self).wf(),
            forall|id: usize| final(self).count_spec(id) == 0,
            final(self).syscall_counts@.len() == 0,
            final(self).task_status == old(self).task_status,
            final(self).start_time_ms == old(self).start_time_ms,
    {
        self.syscall_counts.clear();
    }

    /// Record `start_time` as the task's start time, unless one is already recorded.
    pub fn set_start_time(&mut self, start_time: usize)
        ensures
            final(self).start_time_ms == (match old(self).start_time_ms {
                None => Some(start_time),
                Some(t) => Some(t),
            }),
            final(self).task_status == old(self).task_status,
            final(self).syscall_counts@ == old(self).syscall_counts@,
    {
        if self.start_time_ms.is_none() {
            self.start_time_ms = Some(start_time);
        }
    }

    /// How many times the call `syscall_id` was counted (0 if never).
    pub fn get_syscall_count(&self, syscall_id: usize) -> (r: u32)
        requires
            self.wf(),
        ensures
            r == self.count_spec(syscall_id),
    {
        let n = self.syscall_counts.len();
        let mut i: usize = 0;
        while i < n
            invariant
                n == self.syscall_counts.len(),
                records_unique(self.syscall_counts@),
                0 <= i <= n,
                forall|k: int| 0 <= k < i ==> self.syscall_counts@[k].syscall_id != syscall_id,
            decreases n - i,
        {
            if self.syscall_counts[i].syscall_id == syscall_id {
                proof {
                    lemma_count_at(self.syscall_counts@, i as int);
                }
                return self.syscall_counts[i].count;
            }
            i = i + 1;
        }
        0
    }
}

impl Default for TaskControlBlock {
    /// A task that has not run yet and made no system call.
    fn default() -> (r: Self)
        ensures
            r.task_status == TaskStatus::UnInit,
            r.syscall_counts@.len() == 0,
            r.start_time_ms.is_none(),
    {
        TaskControlBlock { task_status: TaskStatus::UnInit, syscall_counts: Vec::new(), start_time_ms: None }
    }
}

} // verus!
