//! Writes to the database are queued and run in order, in batches: when
//! enough steps passed, when the queue is old enough, or when it is long.
use vstd::prelude::*;

verus! {

/// A queue of tasks that run in the order they were pushed.
pub struct SyncDb<F> {
    order_tasks: Vec<F>,
}

impl<F> SyncDb<F> {
    pub closed spec fn view(self) -> Seq<F> {
        self.order_tasks@
    }

    pub fn new() -> (q: Self)
        ensures
            q.view() == Seq::<F>::empty(),
    {
        SyncDb { order_tasks: Vec::new() }
    }

    /// Adds a task at the end.
    pub fn push_task(&mut self, task: F)
        ensures
            final(self).view() == old(self).view().push(task),
    {
        self.order_tasks.push(task);
    }

    pub fn task_len(&self) -> (n: usize)
        ensures
            n == self.view().len(),
    {
        self.order_tasks.len()
    }

    /// Hands out all tasks, first pushed first, and leaves the queue empty.
    pub fn take_tasks(&mut self) -> (tasks: Vec<F>)
        ensures
            tasks@ == old(self).view(),
            final(self).view() == Seq::<F>::empty(),
    {
        let mut tasks: Vec<F> = Vec::new();
        std::mem::swap(&mut tasks, &mut self.order_tasks);
        tasks
    }
}

/// When a batch is due. The thresholds are the server's configuration.
#[derive(Clone, Copy)]
pub struct SyncPolicy {
    /// A batch is due after more than this many steps.
    pub max_steps: u64,
    /// A non-empty queue is due when older than this (milliseconds).
    pub expire_ms: u64,
    /// A queue longer than this is due.
    pub max_count: usize,
}

/// The queue of database writes, with the number of steps taken and the
/// monotonic instant (nanoseconds) of the last batch.
pub struct CycleTaskDb<F> {
    pub sync_to_db: SyncDb<F>,
    pub db_step: u64,
    pub expire: u64,
}

/// A batch is due after more than `max_steps` steps, when the queue is
/// non-empty and the last batch is more than `expire_ms` milliseconds
/// ago, or when the queue holds more than `max_count` tasks.
pub open spec fn spec_batch_due(
    db_step: u64,
    expire: u64,
    len: nat,
    now: u64,
    policy: SyncPolicy,
) -> bool {
    db_step > policy.max_steps || (spec_elapsed_ms(now, expire) > policy.expire_ms && len > 0)
        || len > policy.max_count
}

/// Whole milliseconds from `then` to `now`, zero when `then` is later.
pub open spec fn spec_elapsed_ms(now: u64, then: u64) -> u64 {
    if now >= then {
        ((now - then) / 1_000_000) as u64
    } else {
        0
    }
}

impl<F> CycleTaskDb<F> {
    /// An empty queue whose last batch is at `now`.
    pub fn new(now: u64) -> (c: Self)
        ensures
            c.sync_to_db.view() == Seq::<F>::empty(),
            c.db_step == 0,
            c.expire == now,
    {
        CycleTaskDb { sync_to_db: SyncDb::new(), db_step: 0, expire: now }
    }

    pub fn insert_sync_task(&mut self, task: F)
        ensures
            final(self).sync_to_db.view() == old(self).sync_to_db.view().push(task),
            final(self).db_step == old(self).db_step,
            final(self).expire == old(self).expire,
    {
        self.sync_to_db.push_task(task);
    }

    /// Counts one step.
    pub fn inc_step(&mut self)
        requires
            old(self).db_step < u64::MAX,
        ensures
            final(self).db_step == old(self).db_step + 1,
            final(self).sync_to_db.view() == old(self).sync_to_db.view(),
            final(self).expire == old(self).expire,
    {
        self.db_step = self.db_step + 1;
    }

    pub fn update_expire(&mut self, now: u64)
        ensures
            final(self).expire == now,
            final(self).db_step == old(self).db_step,
            final(self).sync_to_db.view() == old(self).sync_to_db.view(),
    {
        self.expire = now;
    }

    /// Whether a batch is due at `now`.
    pub fn batch_due(&self, now: u64, policy: SyncPolicy) -> (r: bool)
        ensures
            r == spec_batch_due(self.db_step, self.expire, self.sync_to_db.view().len(), now, policy),
    {
        let elapsed_ms = if now >= self.expire {
            (now - self.expire) / 1_000_000
        } else {
            0
        };
        let len = self.sync_to_db.task_len();
        self.db_step > policy.max_steps || (elapsed_ms > policy.expire_ms && len > 0) || len
            > policy.max_count
    }

    /// Takes the batch to run when one is due: all queued tasks, in order.
    /// The caller runs them and then calls `batch_done`.
    pub fn take_batch(&mut self, now: u64, policy: SyncPolicy) -> (r: Option<Vec<F>>)
        ensures
            spec_batch_due(old(self).db_step, old(self).expire, old(self).sync_to_db.view().len(), now, policy)
                ==> (r matches Some(t) && t@ == old(self).sync_to_db.view()
                && final(self).sync_to_db.view() == Seq::<F>::empty()),
            !spec_batch_due(old(self).db_step, old(self).expire, old(self).sync_to_db.view().len(), now, policy)
                ==> (r is None && final(self).sync_to_db.view() == old(self).sync_to_db.view()),
            final(self).db_step == old(self).db_step,
            final(self).expire == old(self).expire,
    {
        if self.batch_due(now, policy) {
            Some(self.sync_to_db.take_tasks())
        } else {
            None
        }
    }

    /// After a batch ran: steps start over and the batch time is `now`.
    pub fn batch_done(&mut self, now: u64)
        ensures
            final(self).db_step == 0,
            final(self).expire == now,
            final(self).sync_to_db.view() == old(self).sync_to_db.view(),
    {
        self.db_step = 0;
        self.expire = now;
    }
}

} // verus!
