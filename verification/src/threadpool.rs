//! The sequential core of the worker pools.
//!
//! A pool here is plain state with one operation for each thing that
//! happens to it: a job is submitted, a worker starts, asks for work,
//! finishes a job or leaves. Each operation says in its result what has to
//! be signalled. Whoever runs the threads keeps the state behind a lock,
//! calls the operation and does the signalling and the waiting.

use std::collections::HashSet;
use std::collections::VecDeque;
use vstd::prelude::*;

pub mod adaptive;
pub mod fixed;
pub mod watermark;

verus! {

/// A piece of work: a function without arguments or result.
pub struct Job<F> {
    pub function: F,
}

impl<F: Fn()> Job<F> {
    /// Runs the job once.
    pub fn execute(&self)
        requires
            call_requires(self.function, ()),
        ensures
            call_ensures(self.function, (), ()),
    {
        (self.function)()
    }
}

/// What a pool's queue holds: jobs, and commands to the worker that takes
/// them.
pub enum WorkItem<J> {
    Execute(J),
    /// The worker starts one more worker.
    Clone,
    /// The worker leaves, unless it is the last one.
    Terminate,
}

/// What a worker does next.
pub enum WorkerStep<J> {
    /// Run this job, then tell the pool that it is done.
    Run(J),
    /// Start one more worker, then ask again.
    Spawn,
    /// Ask again at once.
    Again,
    /// Wait until the queue is signalled or the wait times out, then ask
    /// again.
    Wait,
    /// Leave the pool: tell it so and end.
    Exit,
}

/// The jobs among the items of a queue, in the queue's order.
pub open spec fn queued_jobs<J>(queue: Seq<WorkItem<J>>) -> Seq<J>
    decreases queue.len(),
{
    if queue.len() == 0 {
        Seq::empty()
    } else {
        match queue[0] {
            WorkItem::Execute(job) => seq![job] + queued_jobs(queue.drop_first()),
            _ => queued_jobs(queue.drop_first()),
        }
    }
}

/// A pool as contracts see it.
pub struct PoolView<J> {
    /// The items that wait, the next one first.
    pub queue: Seq<WorkItem<J>>,
    /// The workers that are in the pool.
    pub workers: Set<i32>,
    /// The workers that run a job.
    pub busy: Set<i32>,
    pub stopping: bool,
    /// Every job that was ever submitted, in the order of submission.
    pub submitted: Seq<J>,
    /// Every job that was ever handed to a worker, in the order of handing.
    pub dispatched: Seq<J>,
}

impl<J> PoolView<J> {
    /// What holds of a pool at all times: only workers of the pool run jobs,
    /// and the jobs that were submitted are those that were handed to a
    /// worker, followed by those that wait, with no job twice and none
    /// missing.
    pub open spec fn valid(self) -> bool {
        &&& self.workers.finite()
        &&& self.busy.finite()
        &&& self.busy.subset_of(self.workers)
        &&& self.submitted == self.dispatched + queued_jobs(self.queue)
    }

    /// Whether nothing waits and no worker runs a job.
    pub open spec fn complete(self) -> bool {
        self.queue.len() == 0 && self.busy.len() == 0
    }

    /// A pool without workers and work.
    pub open spec fn empty() -> PoolView<J> {
        PoolView {
            queue: Seq::empty(),
            workers: Set::empty(),
            busy: Set::empty(),
            stopping: false,
            submitted: Seq::empty(),
            dispatched: Seq::empty(),
        }
    }

    /// The pool after `job` was submitted.
    pub open spec fn with_job(self, job: J) -> PoolView<J> {
        PoolView {
            queue: self.queue.push(WorkItem::Execute(job)),
            submitted: self.submitted.push(job),
            ..self
        }
    }

    /// The pool after `worker` took the next item.
    pub open spec fn after_take(self, worker: i32) -> PoolView<J> {
        if self.queue.len() == 0 {
            self
        } else {
            match self.queue[0] {
                WorkItem::Execute(job) => PoolView {
                    queue: self.queue.drop_first(),
                    busy: self.busy.insert(worker),
                    dispatched: self.dispatched.push(job),
                    ..self
                },
                _ => PoolView { queue: self.queue.drop_first(), ..self },
            }
        }
    }

    /// The pool after `worker` finished its job.
    pub open spec fn after_job(self, worker: i32) -> PoolView<J> {
        PoolView { busy: self.busy.remove(worker), ..self }
    }

    /// The pool after `worker` left.
    pub open spec fn without_worker(self, worker: i32) -> PoolView<J> {
        PoolView { workers: self.workers.remove(worker), busy: self.busy.remove(worker), ..self }
    }

    /// Whether someone who waits for completion is to be signalled: the
    /// pool is complete and not stopping.
    pub open spec fn idle(self) -> bool {
        !self.stopping && self.complete()
    }
}

/// A job at the end of a queue is the last of the queue's jobs.
pub proof fn lemma_queued_jobs_push<J>(queue: Seq<WorkItem<J>>, item: WorkItem<J>)
    ensures
        queued_jobs(queue.push(item)) == match item {
            WorkItem::Execute(job) => queued_jobs(queue).push(job),
            _ => queued_jobs(queue),
        },
    decreases queue.len(),
{
    let longer = queue.push(item);
    if queue.len() == 0 {
        assert(longer.drop_first() =~= Seq::<WorkItem<J>>::empty());
        assert(queued_jobs(longer.drop_first()) =~= Seq::<J>::empty());
        match item {
            WorkItem::Execute(job) => {
                assert(queued_jobs(longer) =~= queued_jobs(queue).push(job));
            },
            _ => {},
        }
    } else {
        lemma_queued_jobs_push(queue.drop_first(), item);
        assert(longer.drop_first() =~= queue.drop_first().push(item));
        assert(longer[0] == queue[0]);
        match item {
            WorkItem::Execute(job) => {
                assert(queued_jobs(longer) =~= queued_jobs(queue).push(job));
            },
            _ => {},
        }
    }
}

/// A command at the front of a queue leaves the queue's jobs as they are.
pub proof fn lemma_queued_jobs_command_first<J>(queue: Seq<WorkItem<J>>, item: WorkItem<J>)
    requires
        !(item is Execute),
    ensures
        queued_jobs(seq![item] + queue) == queued_jobs(queue),
{
    let longer = seq![item] + queue;
    assert(longer.drop_first() =~= queue);
}

/// In a valid pool no more workers run a job than there are workers.
pub proof fn lemma_busy_bounded<J>(pool: PoolView<J>)
    requires
        pool.valid(),
    ensures
        0 <= pool.busy.len() <= pool.workers.len(),
{
    vstd::set_lib::lemma_len_subset(pool.busy, pool.workers);
}

/// In a valid pool that is complete, every job that was submitted was
/// handed to a worker, once and in the order of submission, and no worker
/// runs one still.
pub proof fn lemma_complete_means_all_dispatched<J>(pool: PoolView<J>)
    requires
        pool.valid(),
        pool.complete(),
    ensures
        pool.dispatched == pool.submitted,
        pool.busy == Set::<i32>::empty(),
{
    assert(queued_jobs(pool.queue) =~= Seq::<J>::empty());
    assert(pool.dispatched + Seq::<J>::empty() =~= pool.dispatched);
    assert(pool.busy =~= Set::<i32>::empty()) by {
        if pool.busy.len() == 0 {
            assert forall|worker: i32| !pool.busy.contains(worker) by {
                if pool.busy.contains(worker) {
                    vstd::set_lib::lemma_set_empty_equivalency_len(pool.busy);
                }
            }
        }
    }
}

/// The state that all pools share.
pub struct PoolState<J> {
    queue: VecDeque<WorkItem<J>>,
    workers: HashSet<i32>,
    busy: HashSet<i32>,
    stopping: bool,
    submitted: Ghost<Seq<J>>,
    dispatched: Ghost<Seq<J>>,
}

impl<J> View for PoolState<J> {
    type V = PoolView<J>;

    closed spec fn view(&self) -> PoolView<J> {
        PoolView {
            queue: self.queue@,
            workers: self.workers@,
            busy: self.busy@,
            stopping: self.stopping,
            submitted: self.submitted@,
            dispatched: self.dispatched@,
        }
    }
}

impl<J> PoolState<J> {
    /// A pool without workers and work.
    pub fn new() -> (pool: Self)
        ensures
            pool@ == PoolView::<J>::empty(),
            pool@.valid(),
    {
        let pool = PoolState {
            queue: VecDeque::new(),
            workers: HashSet::new(),
            busy: HashSet::new(),
            stopping: false,
            submitted: Ghost(Seq::empty()),
            dispatched: Ghost(Seq::empty()),
        };
        proof {
            assert(queued_jobs(pool@.queue) =~= Seq::<J>::empty());
            assert(pool@.submitted =~= pool@.dispatched + queued_jobs(pool@.queue));
        }
        pool
    }

    /// Puts `job` at the end of the queue and returns how many items waited
    /// before it.
    pub fn submit(&mut self, job: J) -> (waiting: usize)
        requires
            old(self)@.valid(),
        ensures
            final(self)@ == old(self)@.with_job(job),
            final(self)@.valid(),
            waiting == old(self)@.queue.len(),
    {
        let waiting = self.queue.len();
        proof {
            lemma_queued_jobs_push(self.queue@, WorkItem::Execute(job));
            assert(self.submitted@.push(job) =~= self.dispatched@ + queued_jobs(self.queue@).push(
                job,
            ));
        }
        self.submitted = Ghost(self.submitted@.push(job));
        self.queue.push_back(WorkItem::Execute(job));
        waiting
    }

    /// Puts a command at the end of the queue.
    pub fn command_last(&mut self, command: WorkItem<J>)
        requires
            old(self)@.valid(),
            !(command is Execute),
        ensures
            final(self)@ == (PoolView { queue: old(self)@.queue.push(command), ..old(self)@ }),
            final(self)@.valid(),
    {
        proof {
            lemma_queued_jobs_push(self.queue@, command);
        }
        self.queue.push_back(command);
    }

    /// Puts a command at the front of the queue.
    pub fn command_first(&mut self, command: WorkItem<J>)
        requires
            old(self)@.valid(),
            !(command is Execute),
        ensures
            final(self)@ == (PoolView { queue: seq![command] + old(self)@.queue, ..old(self)@ }),
            final(self)@.valid(),
    {
        proof {
            lemma_queued_jobs_command_first(self.queue@, command);
        }
        self.queue.push_front(command);
    }

    /// How many items wait.
    pub fn queue_len(&self) -> (waiting: usize)
        ensures
            waiting == self@.queue.len(),
    {
        self.queue.len()
    }

    /// How many workers are in the pool.
    pub fn amount_workers(&self) -> (amount: usize)
        requires
            self@.valid(),
        ensures
            amount == self@.workers.len(),
    {
        broadcast use vstd::std_specs::hash::group_hash_axioms;

        self.workers.len()
    }

    /// How many workers run a job.
    pub fn busy_count(&self) -> (amount: usize)
        requires
            self@.valid(),
        ensures
            amount == self@.busy.len(),
            amount <= self@.workers.len(),
    {
        broadcast use vstd::std_specs::hash::group_hash_axioms;

        proof {
            lemma_busy_bounded(self@);
        }
        self.busy.len()
    }

    pub fn is_worker(&self, worker: i32) -> (known: bool)
        ensures
            known == self@.workers.contains(worker),
    {
        broadcast use vstd::std_specs::hash::group_hash_axioms;

        self.workers.contains(&worker)
    }

    pub fn is_stopping(&self) -> (stopping: bool)
        ensures
            stopping == self@.stopping,
    {
        self.stopping
    }

    /// Whether nothing waits and no worker runs a job.
    pub fn is_complete(&self) -> (complete: bool)
        requires
            self@.valid(),
        ensures
            complete == self@.complete(),
    {
        broadcast use vstd::std_specs::hash::group_hash_axioms;

        self.queue.len() == 0 && self.busy.len() == 0
    }

    /// Tells the pool to stop.
    pub fn stop(&mut self)
        ensures
            final(self)@ == (PoolView { stopping: true, ..old(self)@ }),
    {
        self.stopping = true;
    }

    /// Whether no worker is left.
    pub fn all_exited(&self) -> (exited: bool)
        requires
            self@.valid(),
        ensures
            exited == (self@.workers.len() == 0),
            exited == (self@.workers == Set::<i32>::empty()),
    {
        broadcast use vstd::std_specs::hash::group_hash_axioms;

        proof {
            vstd::set_lib::lemma_set_empty_equivalency_len(self@.workers);
        }
        self.workers.len() == 0
    }

    /// Takes `worker` into the pool.
    pub fn worker_started(&mut self, worker: i32)
        requires
            old(self)@.valid(),
        ensures
            final(self)@ == (PoolView {
                workers: old(self)@.workers.insert(worker),
                ..old(self)@
            }),
            final(self)@.valid(),
    {
        broadcast use vstd::std_specs::hash::group_hash_axioms;

        self.workers.insert(worker);
    }

    /// Hands the next item to `worker`, which is a worker of the pool. With
    /// a job, the worker counts as running one from now on.
    pub fn take(&mut self, worker: i32) -> (item: Option<WorkItem<J>>)
        requires
            old(self)@.valid(),
            old(self)@.workers.contains(worker),
        ensures
            final(self)@ == old(self)@.after_take(worker),
            final(self)@.valid(),
            item == if old(self)@.queue.len() == 0 {
                None
            } else {
                Some(old(self)@.queue[0])
            },
    {
        broadcast use vstd::std_specs::hash::group_hash_axioms;

        let ghost before = self.queue@;
        let item = self.queue.pop_front();
        proof {
            if before.len() > 0 {
                assert(self.queue@ =~= before.drop_first());
            }
        }
        match &item {
            Some(WorkItem::Execute(job)) => {
                proof {
                    assert(self.dispatched@.push(*job) + queued_jobs(before.drop_first())
                        =~= self.dispatched@ + queued_jobs(before));
                }
                self.dispatched = Ghost(self.dispatched@.push(*job));
                self.busy.insert(worker);
            },
            _ => {},
        }
        item
    }

    /// Notes that `worker` finished its job. Returns whether the pool became
    /// idle: it is not stopping, nothing waits and no worker runs a job.
    pub fn job_done(&mut self, worker: i32) -> (idle: bool)
        requires
            old(self)@.valid(),
        ensures
            final(self)@ == old(self)@.after_job(worker),
            final(self)@.valid(),
            idle == final(self)@.idle(),
    {
        broadcast use vstd::std_specs::hash::group_hash_axioms;

        self.busy.remove(&worker);
        !self.stopping && self.busy.len() == 0 && self.queue.len() == 0
    }

    /// Takes `worker` out of the pool. Returns whether no worker is left.
    pub fn worker_exited(&mut self, worker: i32) -> (last: bool)
        requires
            old(self)@.valid(),
        ensures
            final(self)@ == old(self)@.without_worker(worker),
            final(self)@.valid(),
            last == (final(self)@.workers.len() == 0),
    {
        broadcast use vstd::std_specs::hash::group_hash_axioms;

        self.workers.remove(&worker);
        self.busy.remove(&worker);
        self.workers.len() == 0
    }
}

/// What every pool offers to those who give it work.
///
/// Nothing here blocks. Whoever submits wakes a waiting worker where the
/// result says so; whoever waits for completion, or for the workers to
/// leave, waits and asks again until the answer is `true`.
pub trait Threadpool<J>: Sized {
    /// The queue, the workers and the jobs of the pool.
    spec fn pool(&self) -> PoolView<J>;

    /// What holds of the pool at all times.
    spec fn valid(&self) -> bool;

    /// Puts `job` behind the jobs that wait. Returns whether a waiting
    /// worker is to be woken: the queue was empty.
    fn submit_job(&mut self, job: J) -> (wake: bool)
        requires
            old(self).valid(),
        ensures
            final(self).valid(),
            wake == (old(self).pool().queue.len() == 0),
            final(self).pool().submitted == old(self).pool().submitted.push(job),
            queued_jobs(final(self).pool().queue) == queued_jobs(old(self).pool().queue).push(job),
            final(self).pool().dispatched == old(self).pool().dispatched,
            final(self).pool().workers == old(self).pool().workers,
            final(self).pool().busy == old(self).pool().busy,
            final(self).pool().stopping == old(self).pool().stopping,
    ;

    /// Whether all work is done: nothing waits and no worker runs a job.
    fn wait_completion(&self) -> (complete: bool)
        requires
            self.valid(),
        ensures
            complete == self.pool().complete(),
            complete ==> self.pool().dispatched == self.pool().submitted,
    ;

    /// Tells the workers to leave. Returns whether all of them have left.
    fn destroy(&mut self) -> (exited: bool)
        requires
            old(self).valid(),
        ensures
            final(self).valid(),
            final(self).pool() == (PoolView { stopping: true, ..old(self).pool() }),
            exited == (final(self).pool().workers == Set::<i32>::empty()),
    ;
}

} // verus!
