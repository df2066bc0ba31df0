//! A pool that grows while work piles up and shrinks while workers idle,
//! between a least and a largest number of workers.

use crate::threadpool::{
    lemma_complete_means_all_dispatched, lemma_queued_jobs_push, queued_jobs, PoolState, PoolView,
    Threadpool, WorkItem, WorkerStep,
};
use std::time::Duration;
use vstd::prelude::*;

verus! {

/// A job is answered with one more worker where more items than this
/// waited before it.
pub const PRESSURE_THRESHOLD: usize = 5;

/// The state of a pool between two watermarks.
pub struct WatermarkThreadpool<J> {
    state: PoolState<J>,
    idle_threshold: Duration,
    min_size: usize,
    max_size: usize,
    current_size: usize,
}

/// The numbers of a watermark pool as contracts see them.
pub struct Watermarks {
    pub min_size: usize,
    pub max_size: usize,
    /// The workers that the pool counts on: those that it was made with and
    /// those that it asked for since, less those that left for want of work.
    pub current_size: usize,
}

impl<J> WatermarkThreadpool<J> {
    pub closed spec fn marks(&self) -> Watermarks {
        Watermarks {
            min_size: self.min_size,
            max_size: self.max_size,
            current_size: self.current_size,
        }
    }

    /// How long a worker waits for work before it may leave.
    pub closed spec fn spec_idle_threshold(&self) -> Duration {
        self.idle_threshold
    }

    /// Whether the pool counts on no fewer workers than its least and no
    /// more than its largest number.
    pub open spec fn within_marks(&self) -> bool {
        self.marks().min_size <= self.marks().current_size <= self.marks().max_size
    }

    /// Whether the pool asks for one more worker when a job comes in behind
    /// `waiting` items.
    pub open spec fn grows_on_submit(&self, waiting: nat) -> bool {
        waiting > PRESSURE_THRESHOLD && self.marks().current_size < self.marks().max_size
    }

    /// The state of a pool that starts with `min_size` workers and never
    /// counts on more than `max_size`. No worker has started yet: whoever
    /// runs the pool starts `min_size` of them.
    pub fn new(min_size: usize, max_size: usize, idle_threshold: Duration) -> (created: Self)
        ensures
            created.valid(),
            created.pool() == PoolView::<J>::empty(),
            created.marks() == (Watermarks { min_size, max_size, current_size: min_size }),
            created.spec_idle_threshold() == idle_threshold,
            min_size <= max_size ==> created.within_marks(),
    {
        WatermarkThreadpool {
            state: PoolState::new(),
            idle_threshold,
            min_size,
            max_size,
            current_size: min_size,
        }
    }

    /// How long a worker waits for work before it may leave.
    pub fn idle_threshold(&self) -> (threshold: Duration)
        ensures
            threshold == self.spec_idle_threshold(),
    {
        self.idle_threshold
    }

    pub fn min_size(&self) -> (size: usize)
        ensures
            size == self.marks().min_size,
    {
        self.min_size
    }

    pub fn max_size(&self) -> (size: usize)
        ensures
            size == self.marks().max_size,
    {
        self.max_size
    }

    pub fn current_size(&self) -> (size: usize)
        ensures
            size == self.marks().current_size,
    {
        self.current_size
    }

    /// How many items wait.
    pub fn queue_size(&self) -> (waiting: usize)
        ensures
            waiting == self.pool().queue.len(),
    {
        self.state.queue_len()
    }

    pub fn is_stopping(&self) -> (stopping: bool)
        ensures
            stopping == self.pool().stopping,
    {
        self.state.is_stopping()
    }

    /// How many workers run a job: never more than there are workers.
    pub fn busy_workers_count(&self) -> (amount: usize)
        requires
            self.valid(),
        ensures
            amount == self.pool().busy.len(),
            amount <= self.pool().workers.len(),
    {
        self.state.busy_count()
    }

    /// Whether `worker` is in the pool.
    pub fn is_worker(&self, worker: i32) -> (known: bool)
        ensures
            known == self.pool().workers.contains(worker),
    {
        self.state.is_worker(worker)
    }

    /// How many workers are in the pool.
    pub fn amount_workers(&self) -> (amount: usize)
        requires
            self.valid(),
        ensures
            amount == self.pool().workers.len(),
    {
        self.state.amount_workers()
    }

    /// Takes `worker`, which has just started, into the pool.
    pub fn worker_started(&mut self, worker: i32)
        requires
            old(self).valid(),
        ensures
            final(self).valid(),
            final(self).marks() == old(self).marks(),
            final(self).spec_idle_threshold() == old(self).spec_idle_threshold(),
            final(self).pool() == (PoolView {
                workers: old(self).pool().workers.insert(worker),
                ..old(self).pool()
            }),
    {
        self.state.worker_started(worker);
    }

    /// What `worker`, a worker of the pool that runs no job, does next. In a
    /// pool that stops it leaves. Otherwise it takes the next item: it runs
    /// a job, starts a worker where the item asks for one, and waits where
    /// nothing is queued.
    pub fn worker_step(&mut self, worker: i32) -> (step: WorkerStep<J>)
        requires
            old(self).valid(),
            old(self).pool().workers.contains(worker),
        ensures
            final(self).valid(),
            final(self).marks() == old(self).marks(),
            final(self).spec_idle_threshold() == old(self).spec_idle_threshold(),
            old(self).pool().stopping ==> step is Exit && final(self).pool() == old(self).pool(),
            !old(self).pool().stopping ==> {
                &&& final(self).pool() == old(self).pool().after_take(worker)
                &&& step == if old(self).pool().queue.len() == 0 {
                    WorkerStep::Wait
                } else {
                    match old(self).pool().queue[0] {
                        WorkItem::Execute(job) => WorkerStep::Run(job),
                        WorkItem::Clone => WorkerStep::Spawn,
                        WorkItem::Terminate => WorkerStep::Again,
                    }
                }
            },
    {
        if self.state.is_stopping() {
            return WorkerStep::Exit;
        }
        match self.state.take(worker) {
            Some(WorkItem::Execute(job)) => WorkerStep::Run(job),
            Some(WorkItem::Clone) => WorkerStep::Spawn,
            Some(WorkItem::Terminate) => WorkerStep::Again,
            None => WorkerStep::Wait,
        }
    }

    /// Decides whether a worker whose wait for work timed out leaves. It
    /// leaves where the pool counts on more than its least number of
    /// workers, and the pool then counts on one less.
    pub fn idle_timeout(&mut self) -> (leave: bool)
        requires
            old(self).valid(),
        ensures
            final(self).valid(),
            final(self).pool() == old(self).pool(),
            final(self).spec_idle_threshold() == old(self).spec_idle_threshold(),
            leave == (old(self).marks().current_size > old(self).marks().min_size),
            old(self).within_marks() ==> final(self).within_marks(),
            final(self).marks() == if leave {
                Watermarks {
                    current_size: (old(self).marks().current_size - 1) as usize,
                    ..old(self).marks()
                }
            } else {
                old(self).marks()
            },
    {
        if self.current_size > self.min_size {
            self.current_size = self.current_size - 1;
            true
        } else {
            false
        }
    }

    /// Notes that `worker` finished its job. Returns whether someone who
    /// waits for completion is to be signalled.
    pub fn job_done(&mut self, worker: i32) -> (idle: bool)
        requires
            old(self).valid(),
        ensures
            final(self).valid(),
            final(self).marks() == old(self).marks(),
            final(self).spec_idle_threshold() == old(self).spec_idle_threshold(),
            final(self).pool() == old(self).pool().after_job(worker),
            idle == final(self).pool().idle(),
    {
        self.state.job_done(worker)
    }

    /// Takes `worker` out of the pool. Returns whether it was the last, so
    /// that someone who waits for the workers to leave is to be signalled.
    pub fn worker_exited(&mut self, worker: i32) -> (last: bool)
        requires
            old(self).valid(),
        ensures
            final(self).valid(),
            final(self).marks() == old(self).marks(),
            final(self).spec_idle_threshold() == old(self).spec_idle_threshold(),
            final(self).pool() == old(self).pool().without_worker(worker),
            last == (final(self).pool().workers.len() == 0),
    {
        self.state.worker_exited(worker)
    }
}

impl<J> Threadpool<J> for WatermarkThreadpool<J> {
    closed spec fn pool(&self) -> PoolView<J> {
        self.state@
    }

    open spec fn valid(&self) -> bool {
        self.pool().valid()
    }

    /// Where more than `PRESSURE_THRESHOLD` items waited before the job and
    /// the pool counts on fewer workers than it may have, the job is followed
    /// by the command to start one more.
    fn submit_job(&mut self, job: J) -> (wake: bool)
        ensures
            final(self).spec_idle_threshold() == old(self).spec_idle_threshold(),
            old(self).within_marks() ==> final(self).within_marks(),
            final(self).pool() == if old(self).grows_on_submit(old(self).pool().queue.len()) {
                PoolView {
                    queue: old(self).pool().with_job(job).queue.push(WorkItem::Clone),
                    ..old(self).pool().with_job(job)
                }
            } else {
                old(self).pool().with_job(job)
            },
            final(self).marks() == if old(self).grows_on_submit(old(self).pool().queue.len()) {
                Watermarks {
                    current_size: (old(self).marks().current_size + 1) as usize,
                    ..old(self).marks()
                }
            } else {
                old(self).marks()
            },
    {
        proof {
            lemma_queued_jobs_push(self.pool().queue, WorkItem::Execute(job));
            lemma_queued_jobs_push(
                self.pool().queue.push(WorkItem::Execute(job)),
                WorkItem::<J>::Clone,
            );
        }
        let queue_size = self.state.submit(job);
        if queue_size == 0 {
            true
        } else {
            if queue_size > PRESSURE_THRESHOLD && self.current_size < self.max_size {
                self.current_size = self.current_size + 1;
                self.state.command_last(WorkItem::Clone);
            }
            false
        }
    }

    fn wait_completion(&self) -> (complete: bool) {
        proof {
            if self.pool().complete() {
                lemma_complete_means_all_dispatched(self.pool());
            }
        }
        self.state.is_complete()
    }

    fn destroy(&mut self) -> (exited: bool)
        ensures
            final(self).marks() == old(self).marks(),
            final(self).spec_idle_threshold() == old(self).spec_idle_threshold(),
    {
        self.state.stop();
        self.state.all_exited()
    }
}

} // verus!
