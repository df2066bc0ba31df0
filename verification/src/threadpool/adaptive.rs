//! A pool that asks a controller how many workers it should have and
//! resizes itself accordingly.

use crate::adapter::{advised, ScalingAdapter};
use crate::intervals::{IntervalData, IntervalDerivedData};
use crate::state::{MAX_STEP, SETTLE_TIMEOUT_MS};
use crate::threadpool::{
    lemma_complete_means_all_dispatched, lemma_queued_jobs_command_first, lemma_queued_jobs_push,
    queued_jobs, PoolState, PoolView, Threadpool, WorkItem, WorkerStep,
};
use crate::tracesets::{snapshot_of, KernelCounters};
use vstd::prelude::*;

verus! {

/// The change in the number of workers that a pool of `workers` workers
/// makes on the advice `advice`: the advice, unless it leaves less than one
/// worker; then the change that leaves one.
pub open spec fn resize_for(advice: int, workers: nat) -> int {
    if workers + advice < 1 {
        1 - workers
    } else {
        advice
    }
}

/// The commands that change the number of workers by `change`: so many
/// commands to start a worker, or to leave where it is negative.
pub open spec fn scale_commands<J>(change: int) -> Seq<WorkItem<J>> {
    if change >= 0 {
        Seq::new(change as nat, |i: int| WorkItem::Clone)
    } else {
        Seq::new((-change) as nat, |i: int| WorkItem::Terminate)
    }
}

/// The state of a pool with its controller.
pub struct AdaptiveThreadpool<J, F> {
    state: PoolState<J>,
    scaling_adapter: ScalingAdapter<F>,
    next_worker_id: usize,
}

impl<J, F: Fn(&IntervalData) -> IntervalDerivedData> AdaptiveThreadpool<J, F> {
    /// The controller of the pool.
    pub closed spec fn adapter(&self) -> ScalingAdapter<F> {
        self.scaling_adapter
    }

    /// The number that the next worker gets.
    pub closed spec fn spec_next_worker_id(&self) -> usize {
        self.next_worker_id
    }

    /// Whether the controller traces the workers of the pool and no other
    /// thread.
    pub open spec fn traces_workers(&self) -> bool {
        self.adapter()@.targets == self.pool().workers
    }

    /// The state of a pool that follows `scaling_adapter`. No worker has
    /// started yet: whoever runs the pool starts the first.
    pub fn new(scaling_adapter: ScalingAdapter<F>) -> (created: Self)
        ensures
            created.pool() == PoolView::<J>::empty(),
            created.adapter() == scaling_adapter,
            created.spec_next_worker_id() == 0,
            scaling_adapter.well_formed() ==> created.valid(),
    {
        AdaptiveThreadpool { state: PoolState::new(), scaling_adapter, next_worker_id: 0 }
    }

    /// The number for a new worker. The numbers count up from 0 and begin
    /// again after the largest.
    pub fn next_worker_id(&mut self) -> (id: usize)
        ensures
            id == old(self).spec_next_worker_id(),
            final(self).spec_next_worker_id() == if id < usize::MAX {
                (id + 1) as usize
            } else {
                0
            },
            final(self).pool() == old(self).pool(),
            final(self).adapter() == old(self).adapter(),
    {
        let id = self.next_worker_id;
        self.next_worker_id = if id < usize::MAX {
            id + 1
        } else {
            0
        };
        id
    }

    /// The controller of the pool.
    pub fn scaling_adapter(&self) -> (adapter: &ScalingAdapter<F>)
        ensures
            *adapter == self.adapter(),
    {
        &self.scaling_adapter
    }

    pub fn is_stopping(&self) -> (stopping: bool)
        ensures
            stopping == self.pool().stopping,
    {
        self.state.is_stopping()
    }

    /// How many workers run a job: never more than there are workers.
    pub fn busy_workers_count(&self) -> (amount: usize)
        requires
            self.valid(),
        ensures
            amount == self.pool().busy.len(),
            amount <= self.pool().workers.len(),
    {
        self.state.busy_count()
    }

    /// Whether `worker` is in the pool.
    pub fn is_worker(&self, worker: i32) -> (known: bool)
        ensures
            known == self.pool().workers.contains(worker),
    {
        self.state.is_worker(worker)
    }

    /// How many workers are in the pool.
    pub fn amount_workers(&self) -> (amount: usize)
        requires
            self.valid(),
        ensures
            amount == self.pool().workers.len(),
    {
        self.state.amount_workers()
    }

    /// How many items wait.
    pub fn queue_size(&self) -> (waiting: usize)
        ensures
            waiting == self.pool().queue.len(),
    {
        self.state.queue_len()
    }

    /// Takes `worker`, which has just started, into the pool and records it
    /// with the controller as traced. `kernel_ok` says whether the kernel
    /// accepted it; the result hands that on.
    pub fn worker_started(&mut self, worker: i32, kernel_ok: bool) -> (ok: bool)
        requires
            old(self).valid(),
        ensures
            ok == kernel_ok,
            final(self).valid(),
            final(self).spec_next_worker_id() == old(self).spec_next_worker_id(),
            final(self).pool() == (PoolView {
                workers: old(self).pool().workers.insert(worker),
                ..old(self).pool()
            }),
            final(self).adapter()@ == (crate::adapter::AdapterView {
                targets: old(self).adapter()@.targets.insert(worker),
                ..old(self).adapter()@
            }),
            final(self).adapter().calc_metrics() == old(self).adapter().calc_metrics(),
            old(self).traces_workers() ==> final(self).traces_workers(),
    {
        self.state.worker_started(worker);
        self.scaling_adapter.add_tracee(worker, kernel_ok)
    }

    /// Asks the controller for advice at `now`, where the kernel's counters
    /// are `counters`, and puts at the front of the queue the commands that
    /// follow it: so many commands to start a worker as the advice asks
    /// for, or so many to leave, but never so many that less than one worker
    /// stays. Returns the change in the number of workers that the commands
    /// make.
    #[verifier::loop_isolation(false)]
    pub fn adapt_size(&mut self, counters: &KernelCounters, now: u64) -> (change: i32)
        requires
            old(self).valid(),
            now + SETTLE_TIMEOUT_MS <= u64::MAX,
        ensures
            final(self).valid(),
            final(self).spec_next_worker_id() == old(self).spec_next_worker_id(),
            final(self).adapter().calc_metrics() == old(self).adapter().calc_metrics(),
            old(self).traces_workers() ==> final(self).traces_workers(),
            exists|metrics: Option<IntervalDerivedData>|
                #![auto]
                {
                    &&& old(self).adapter().may_derive(
                        snapshot_of(
                            old(self).adapter()@.targets,
                            old(self).adapter()@.syscalls,
                            *counters,
                            now,
                        ),
                        metrics,
                    )
                    &&& final(self).adapter()@ == advised(
                        old(self).adapter()@,
                        snapshot_of(
                            old(self).adapter()@.targets,
                            old(self).adapter()@.syscalls,
                            *counters,
                            now,
                        ),
                        metrics,
                        now,
                    ).0
                    &&& change == resize_for(
                        advised(
                            old(self).adapter()@,
                            snapshot_of(
                                old(self).adapter()@.targets,
                                old(self).adapter()@.syscalls,
                                *counters,
                                now,
                            ),
                            metrics,
                            now,
                        ).1,
                        old(self).pool().workers.len(),
                    )
                    &&& final(self).pool() == (PoolView {
                        queue: scale_commands::<J>(
                            resize_for(
                                advised(
                                    old(self).adapter()@,
                                    snapshot_of(
                                        old(self).adapter()@.targets,
                                        old(self).adapter()@.syscalls,
                                        *counters,
                                        now,
                                    ),
                                    metrics,
                                    now,
                                ).1,
                                old(self).pool().workers.len(),
                            ),
                        ) + old(self).pool().queue,
                        ..old(self).pool()
                    })
                },
    {
        let waiting = self.state.queue_len();
        let queue_size: i32 = if waiting > 0x7fff_ffff {
            0x7fff_ffff
        } else {
            waiting as i32
        };
        let ghost snapshot = snapshot_of(
            self.adapter()@.targets,
            self.adapter()@.syscalls,
            *counters,
            now,
        );
        let advice = self.scaling_adapter.get_scaling_advice(counters, now, queue_size);
        let ghost metrics = choose|metrics: Option<IntervalDerivedData>|
            #![auto]
            old(self).adapter().may_derive(snapshot, metrics) && (self.adapter()@, advice as int)
                == advised(old(self).adapter()@, snapshot, metrics, now);
        let change = keep_one_worker(advice, self.state.amount_workers());
        let mut queued: i32 = 0;
        let ghost adapter_after = self.scaling_adapter;
        proof {
            assert(scale_commands::<J>(0) + self.pool().queue =~= self.pool().queue);
        }
        while queued != change
            invariant
                -MAX_STEP <= change <= MAX_STEP,
                change >= 0 ==> 0 <= queued <= change,
                change < 0 ==> change <= queued <= 0,
                self.state@.valid(),
                self.scaling_adapter == adapter_after,
                self.next_worker_id == old(self).next_worker_id,
                self.state@ == (PoolView {
                    queue: scale_commands::<J>(queued as int) + old(self).pool().queue,
                    ..old(self).pool()
                }),
            decreases
                    if change >= 0 {
                        change - queued
                    } else {
                        queued - change
                    },
        {
            let ghost before = scale_commands::<J>(queued as int);
            if change > 0 {
                self.state.command_first(WorkItem::Clone);
                queued = queued + 1;
            } else {
                self.state.command_first(WorkItem::Terminate);
                queued = queued - 1;
            }
            proof {
                assert(scale_commands::<J>(queued as int) =~= seq![
                    if change > 0 {
                        WorkItem::<J>::Clone
                    } else {
                        WorkItem::<J>::Terminate
                    },
                ] + before);
                assert(self.state@.queue =~= scale_commands::<J>(queued as int)
                    + old(self).pool().queue);
            }
        }
        proof {
            assert(old(self).adapter().may_derive(snapshot, metrics));
        }
        change
    }

    /// What `worker`, a worker of the pool that runs no job, does next. In a
    /// pool that stops it leaves. Otherwise it takes the next item: it runs
    /// a job, starts a worker where the item asks for one, and waits where
    /// nothing is queued. Asked to leave, it leaves unless it is the last
    /// worker.
    pub fn worker_step(&mut self, worker: i32) -> (step: WorkerStep<J>)
        requires
            old(self).valid(),
            old(self).pool().workers.contains(worker),
        ensures
            final(self).valid(),
            final(self).spec_next_worker_id() == old(self).spec_next_worker_id(),
            final(self).adapter() == old(self).adapter(),
            old(self).pool().stopping ==> step is Exit && final(self).pool() == old(self).pool(),
            step is Exit ==> old(self).pool().stopping || old(self).pool().workers.len() > 1,
            !old(self).pool().stopping ==> {
                &&& final(self).pool() == old(self).pool().after_take(worker)
                &&& step == if old(self).pool().queue.len() == 0 {
                    WorkerStep::Wait
                } else {
                    match old(self).pool().queue[0] {
                        WorkItem::Execute(job) => WorkerStep::Run(job),
                        WorkItem::Clone => WorkerStep::Spawn,
                        WorkItem::Terminate => if old(self).pool().workers.len() > 1 {
                            WorkerStep::Exit
                        } else {
                            WorkerStep::Again
                        },
                    }
                }
            },
    {
        if self.state.is_stopping() {
            return WorkerStep::Exit;
        }
        match self.state.take(worker) {
            Some(WorkItem::Execute(job)) => WorkerStep::Run(job),
            Some(WorkItem::Clone) => WorkerStep::Spawn,
            Some(WorkItem::Terminate) => {
                if self.state.amount_workers() > 1 {
                    WorkerStep::Exit
                } else {
                    WorkerStep::Again
                }
            },
            None => WorkerStep::Wait,
        }
    }

    /// Notes that `worker` finished its job. Returns whether someone who
    /// waits for completion is to be signalled.
    pub fn job_done(&mut self, worker: i32) -> (idle: bool)
        requires
            old(self).valid(),
        ensures
            final(self).valid(),
            final(self).spec_next_worker_id() == old(self).spec_next_worker_id(),
            final(self).adapter() == old(self).adapter(),
            final(self).pool() == old(self).pool().after_job(worker),
            idle == final(self).pool().idle(),
    {
        self.state.job_done(worker)
    }

    /// Takes `worker` out of the pool, and out of the controller's targets
    /// where the kernel stopped tracing it (`kernel_ok`). Returns whether it
    /// was the last worker, so that someone who waits for the workers to
    /// leave is to be signalled.
    pub fn worker_exited(&mut self, worker: i32, kernel_ok: bool) -> (last: bool)
        requires
            old(self).valid(),
        ensures
            final(self).valid(),
            final(self).spec_next_worker_id() == old(self).spec_next_worker_id(),
            final(self).pool() == old(self).pool().without_worker(worker),
            final(self).adapter()@ == (crate::adapter::AdapterView {
                targets: if kernel_ok {
                    old(self).adapter()@.targets.remove(worker)
                } else {
                    old(self).adapter()@.targets
                },
                ..old(self).adapter()@
            }),
            final(self).adapter().calc_metrics() == old(self).adapter().calc_metrics(),
            last == (final(self).pool().workers.len() == 0),
            old(self).traces_workers() && kernel_ok ==> final(self).traces_workers(),
            last && final(self).traces_workers() ==> final(self).adapter()@.targets == Set::<
                i32,
            >::empty(),
    {
        self.scaling_adapter.remove_tracee(worker, kernel_ok);
        let last = self.state.worker_exited(worker);
        proof {
            vstd::set_lib::lemma_set_empty_equivalency_len(self.pool().workers);
        }
        last
    }
}

/// Once the last worker has left a pool whose controller traced its workers
/// and no other thread, the controller traces no thread.
pub proof fn lemma_no_tracee_without_workers<J, F: Fn(&IntervalData) -> IntervalDerivedData>(
    pool: AdaptiveThreadpool<J, F>,
)
    requires
        pool.traces_workers(),
        pool.pool().workers == Set::<i32>::empty(),
    ensures
        pool.adapter()@.targets == Set::<i32>::empty(),
{
}

/// The change in the number of workers that follows `advice` and leaves
/// at least one of `workers` workers.
pub fn keep_one_worker(advice: i32, workers: usize) -> (change: i32)
    requires
        -MAX_STEP <= advice <= MAX_STEP,
    ensures
        change == resize_for(advice as int, workers as nat),
        -MAX_STEP <= change <= MAX_STEP,
        workers + change >= 1,
{
    if workers > MAX_STEP as usize {
        advice
    } else {
        let current_size: i32 = workers as i32;
        if current_size + advice < 1 {
            1 - current_size
        } else {
            advice
        }
    }
}

impl<J, F: Fn(&IntervalData) -> IntervalDerivedData> Threadpool<J> for AdaptiveThreadpool<J, F> {
    closed spec fn pool(&self) -> PoolView<J> {
        self.state@
    }

    open spec fn valid(&self) -> bool {
        self.pool().valid() && self.adapter().well_formed()
    }

    fn submit_job(&mut self, job: J) -> (wake: bool)
        ensures
            final(self).pool() == old(self).pool().with_job(job),
            final(self).adapter() == old(self).adapter(),
            final(self).spec_next_worker_id() == old(self).spec_next_worker_id(),
    {
        proof {
            lemma_queued_jobs_push(self.pool().queue, WorkItem::Execute(job));
        }
        let waiting = self.state.submit(job);
        waiting == 0
    }

    fn wait_completion(&self) -> (complete: bool) {
        proof {
            if self.pool().complete() {
                lemma_complete_means_all_dispatched(self.pool());
            }
        }
        self.state.is_complete()
    }

    fn destroy(&mut self) -> (exited: bool)
        ensures
            final(self).adapter() == old(self).adapter(),
            final(self).spec_next_worker_id() == old(self).spec_next_worker_id(),
    {
        self.state.stop();
        self.state.all_exited()
    }
}

} // verus!
