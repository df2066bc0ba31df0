//! A pool with a number of workers that never changes.

use crate::threadpool::{
    lemma_complete_means_all_dispatched, queued_jobs, PoolState, PoolView, Threadpool, WorkItem,
    WorkerStep,
};
use vstd::prelude::*;

verus! {

/// The state of a pool that was made with a fixed number of workers.
pub struct FixedThreadpool<J> {
    state: PoolState<J>,
    size: usize,
}

impl<J> FixedThreadpool<J> {
    /// The number of workers that the pool was made for.
    pub closed spec fn spec_size(&self) -> usize {
        self.size
    }

    /// Whether every item of a queue is a job.
    pub open spec fn only_jobs(queue: Seq<WorkItem<J>>) -> bool {
        forall|i: int| 0 <= i < queue.len() ==> (#[trigger] queue[i]) is Execute
    }

    /// The state of a pool for `size` workers, none of which has started
    /// yet: whoever runs the pool starts them.
    pub fn new(size: usize) -> (created: Self)
        ensures
            created.valid(),
            created.pool() == PoolView::<J>::empty(),
            created.spec_size() == size,
    {
        FixedThreadpool { state: PoolState::new(), size }
    }

    /// The number of workers that the pool was made for.
    pub fn size(&self) -> (size: usize)
        ensures
            size == self.spec_size(),
    {
        self.size
    }

    /// How many items wait.
    pub fn queue_size(&self) -> (waiting: usize)
        ensures
            waiting == self.pool().queue.len(),
    {
        self.state.queue_len()
    }

    pub fn is_stopping(&self) -> (stopping: bool)
        ensures
            stopping == self.pool().stopping,
    {
        self.state.is_stopping()
    }

    /// How many workers run a job: never more than there are workers.
    pub fn busy_workers_count(&self) -> (amount: usize)
        requires
            self.valid(),
        ensures
            amount == self.pool().busy.len(),
            amount <= self.pool().workers.len(),
    {
        self.state.busy_count()
    }

    /// Whether `worker` is in the pool.
    pub fn is_worker(&self, worker: i32) -> (known: bool)
        ensures
            known == self.pool().workers.contains(worker),
    {
        self.state.is_worker(worker)
    }

    /// How many workers are in the pool.
    pub fn amount_workers(&self) -> (amount: usize)
        requires
            self.valid(),
        ensures
            amount == self.pool().workers.len(),
    {
        self.state.amount_workers()
    }

    /// Takes `worker`, which has just started, into the pool.
    pub fn worker_started(&mut self, worker: i32)
        requires
            old(self).valid(),
        ensures
            final(self).valid(),
            final(self).spec_size() == old(self).spec_size(),
            final(self).pool() == (PoolView {
                workers: old(self).pool().workers.insert(worker),
                ..old(self).pool()
            }),
    {
        self.state.worker_started(worker);
    }

    /// What `worker`, a worker of the pool that runs no job, does next. In a
    /// pool that stops it leaves. Otherwise it runs the job that waited
    /// longest, and waits where there is none.
    pub fn worker_step(&mut self, worker: i32) -> (step: WorkerStep<J>)
        requires
            old(self).valid(),
            old(self).pool().workers.contains(worker),
        ensures
            final(self).valid(),
            final(self).spec_size() == old(self).spec_size(),
            old(self).pool().stopping ==> step is Exit && final(self).pool() == old(self).pool(),
            !old(self).pool().stopping ==> {
                &&& final(self).pool() == old(self).pool().after_take(worker)
                &&& step == match old(self).pool().queue.first() {
                    WorkItem::Execute(job) if old(self).pool().queue.len() > 0 => WorkerStep::Run(
                        job,
                    ),
                    _ => WorkerStep::Wait,
                }
            },
    {
        if self.state.is_stopping() {
            return WorkerStep::Exit;
        }
        match self.state.take(worker) {
            Some(WorkItem::Execute(job)) => WorkerStep::Run(job),
            Some(_) => {
                proof {
                    assert(old(self).pool().queue[0] is Execute);
                }
                WorkerStep::Again
            },
            None => WorkerStep::Wait,
        }
    }

    /// Notes that `worker` finished its job. Returns whether someone who
    /// waits for completion is to be signalled.
    pub fn job_done(&mut self, worker: i32) -> (idle: bool)
        requires
            old(self).valid(),
        ensures
            final(self).valid(),
            final(self).spec_size() == old(self).spec_size(),
            final(self).pool() == old(self).pool().after_job(worker),
            idle == final(self).pool().idle(),
    {
        self.state.job_done(worker)
    }

    /// Takes `worker` out of the pool. Returns whether it was the last, so
    /// that someone who waits for the workers to leave is to be signalled.
    pub fn worker_exited(&mut self, worker: i32) -> (last: bool)
        requires
            old(self).valid(),
        ensures
            final(self).valid(),
            final(self).spec_size() == old(self).spec_size(),
            final(self).pool() == old(self).pool().without_worker(worker),
            last == (final(self).pool().workers.len() == 0),
    {
        self.state.worker_exited(worker)
    }
}

impl<J> Threadpool<J> for FixedThreadpool<J> {
    closed spec fn pool(&self) -> PoolView<J> {
        self.state@
    }

    open spec fn valid(&self) -> bool {
        self.pool().valid() && Self::only_jobs(self.pool().queue)
    }

    fn submit_job(&mut self, job: J) -> (wake: bool)
        ensures
            final(self).pool() == old(self).pool().with_job(job),
            final(self).spec_size() == old(self).spec_size(),
    {
        proof {
            crate::threadpool::lemma_queued_jobs_push(self.pool().queue, WorkItem::Execute(job));
        }
        let waiting = self.state.submit(job);
        waiting == 0
    }

    fn wait_completion(&self) -> (complete: bool) {
        proof {
            if self.pool().complete() {
                lemma_complete_means_all_dispatched(self.pool());
            }
        }
        self.state.is_complete()
    }

    fn destroy(&mut self) -> (exited: bool)
        ensures
            final(self).spec_size() == old(self).spec_size(),
    {
        self.state.stop();
        self.state.all_exited()
    }
}

} // verus!
