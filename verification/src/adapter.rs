//! The controller: it samples a traceset, keeps the metrics of the last
//! intervals and their averages, and advises by how many workers a pool
//! should grow or shrink.
//!
//! The controller reads no clock and no kernel memory. Its caller hands it
//! the time, in milliseconds since the Unix epoch, and the counters that the
//! kernel shows at that time.

use crate::errors::AdapterError;
use crate::history::{
    pushed, recent, AveragedMetricsHistory, MetricsHistory, AVERAGED_HISTORY_CAPACITY,
    METRICS_HISTORY_CAPACITY,
};
use crate::intervals::{
    can_average, AveragedIntervalMetrics, IntervalData, IntervalDerivedData, IntervalMetrics,
};
use crate::parameters::ScalingParameters;
use crate::state::{
    clamp_advice, clamped, exploring_transition, grow_step, has_deviation_grown, is_better,
    is_worse, scaling_transition, settled_transition, settled_until, startup_transition,
    transition, AdapterState, Direction, MAX_STEP, SETTLE_TIMEOUT_MS,
};
use crate::tracesets::{
    snapshot_of, KernelCounters, SnapshotView, Traceset, TracesetSnapshot, MAX_SYSCALLS,
};
use vstd::prelude::*;

verus! {

/// The least time between two snapshots, in milliseconds.
pub const INTERVAL_MS: u64 = 200;

/// A controller as contracts see it.
pub struct AdapterView {
    pub state: AdapterState,
    /// The threads that are registered as traced.
    pub targets: Set<i32>,
    /// The system calls that are followed.
    pub syscalls: Seq<i32>,
    pub check_interval_ms: u64,
    pub stability_factor: u32,
    /// The metrics of the last intervals, newest first.
    pub metrics: Seq<IntervalMetrics>,
    /// The last averages, newest first.
    pub averaged: Seq<AveragedIntervalMetrics>,
    pub latest_snapshot: SnapshotView,
    /// The end of the newest interval that went into an average.
    pub latest_avg_interval_end: u64,
    /// How often in a row no average could be made.
    pub recent_invalid_avg_intervals: usize,
}

/// The time from `since` to `now` in milliseconds; zero where `now` is the
/// earlier.
pub open spec fn elapsed(now: u64, since: u64) -> int {
    if now >= since {
        now - since
    } else {
        0
    }
}

/// Whether at `now` enough time has passed since the latest snapshot for a
/// new one.
pub open spec fn snapshot_due(view: AdapterView, now: u64) -> bool {
    elapsed(now, view.latest_snapshot.timestamp) >= INTERVAL_MS
}

/// Whether at `now` enough time has passed since the latest average for a
/// new decision.
pub open spec fn advice_due(view: AdapterView, now: u64) -> bool {
    elapsed(now, view.latest_avg_interval_end) >= view.check_interval_ms
}

/// The controller after it took `snapshot`. With metrics, the interval since
/// the snapshot before is valid and becomes the newest entry of the history.
pub open spec fn after_snapshot(
    view: AdapterView,
    snapshot: SnapshotView,
    metrics: Option<IntervalDerivedData>,
) -> AdapterView {
    AdapterView {
        metrics: match metrics {
            Some(derived_data) => pushed(
                view.metrics,
                IntervalMetrics {
                    derived_data,
                    amount_targets: view.latest_snapshot.targets.len() as usize,
                    interval_start: view.latest_snapshot.timestamp,
                    interval_end: snapshot.timestamp,
                },
                METRICS_HISTORY_CAPACITY as nat,
            ),
            None => view.metrics,
        },
        latest_snapshot: snapshot,
        ..view
    }
}

/// The intervals that were recorded since the latest average, newest first.
pub open spec fn fresh_window(view: AdapterView) -> Seq<IntervalMetrics> {
    recent(view.metrics, Some(view.latest_avg_interval_end))
}

/// The controller after it tried to average the intervals recorded since
/// the latest average. Where they cannot be averaged, it counts one more
/// failure.
pub open spec fn after_averaging(view: AdapterView) -> AdapterView {
    let window = fresh_window(view);
    if can_average(window) {
        AdapterView {
            averaged: pushed(
                view.averaged,
                AveragedIntervalMetrics::of_window(window),
                AVERAGED_HISTORY_CAPACITY as nat,
            ),
            latest_avg_interval_end: window[0].interval_end,
            recent_invalid_avg_intervals: 0,
            ..view
        }
    } else {
        AdapterView {
            recent_invalid_avg_intervals: if view.recent_invalid_avg_intervals < usize::MAX {
                (view.recent_invalid_avg_intervals + 1) as usize
            } else {
                view.recent_invalid_avg_intervals
            },
            ..view
        }
    }
}

/// Whether a controller has what a decision needs: its latest attempt to
/// average succeeded, and it holds two averages to compare.
pub open spec fn can_decide(view: AdapterView) -> bool {
    view.recent_invalid_avg_intervals == 0 && view.averaged.len() >= 2
}

/// The controller after a decision at `now`, and the advice. Without what a
/// decision needs nothing changes and the advice is 0. Otherwise the state
/// takes its step, and the advice of the step is cut so that it leaves one
/// worker.
pub open spec fn decided(view: AdapterView, now: u64) -> (AdapterView, int) {
    if can_decide(view) {
        let step = transition(
            view.state,
            view.averaged[0],
            view.averaged[1],
            view.stability_factor,
            now,
        );
        (AdapterView { state: step.state, ..view }, clamped(step.advice as int, view.targets.len()))
    } else {
        (view, 0)
    }
}

/// The controller after it was asked for advice at `now`, and the advice.
/// `snapshot` is what its traceset shows at `now`, and `metrics` are the
/// metrics of the interval since the snapshot before, if that interval is
/// valid.
pub open spec fn advised(
    view: AdapterView,
    snapshot: SnapshotView,
    metrics: Option<IntervalDerivedData>,
    now: u64,
) -> (AdapterView, int) {
    if !snapshot_due(view, now) {
        (view, 0)
    } else if !advice_due(after_snapshot(view, snapshot, metrics), now) {
        (after_snapshot(view, snapshot, metrics), 0)
    } else {
        decided(after_averaging(after_snapshot(view, snapshot, metrics)), now)
    }
}

/// Whatever a controller is asked and whatever it has seen, its advice is a
/// change of at most `MAX_STEP` workers that does not take the number of
/// registered threads below one, and asking leaves the registered threads as
/// they are.
pub proof fn lemma_advice_leaves_a_worker(
    view: AdapterView,
    snapshot: SnapshotView,
    metrics: Option<IntervalDerivedData>,
    now: u64,
)
    ensures
        advised(view, snapshot, metrics, now).0.targets == view.targets,
        -MAX_STEP <= advised(view, snapshot, metrics, now).1 <= MAX_STEP,
        advised(view, snapshot, metrics, now).1 >= 0 || view.targets.len() + advised(
            view,
            snapshot,
            metrics,
            now,
        ).1 >= 1,
{
    let ready = after_averaging(after_snapshot(view, snapshot, metrics));
    if can_decide(ready) {
        crate::state::lemma_transition_bounded(
            ready.state,
            ready.averaged[0],
            ready.averaged[1],
            ready.stability_factor,
            now,
        );
        let step = transition(
            ready.state,
            ready.averaged[0],
            ready.averaged[1],
            ready.stability_factor,
            now,
        );
        crate::state::lemma_clamped(step.advice as int, ready.targets.len());
    }
}

/// A controller of the number of workers of one pool.
pub struct ScalingAdapter<F> {
    parameters: ScalingParameters<F>,
    traceset: Traceset,
    state: AdapterState,
    metrics_history: MetricsHistory,
    metrics_history_averaged: AveragedMetricsHistory,
    latest_snapshot: TracesetSnapshot,
    latest_avg_interval_end: u64,
    recent_invalid_avg_intervals: usize,
}

impl<F: Fn(&IntervalData) -> IntervalDerivedData> View for ScalingAdapter<F> {
    type V = AdapterView;

    closed spec fn view(&self) -> AdapterView {
        AdapterView {
            state: self.state,
            targets: self.traceset.targets@,
            syscalls: self.traceset.syscalls@,
            check_interval_ms: self.parameters.check_interval_ms,
            stability_factor: self.parameters.stability_factor,
            metrics: self.metrics_history@,
            averaged: self.metrics_history_averaged@,
            latest_snapshot: self.latest_snapshot@,
            latest_avg_interval_end: self.latest_avg_interval_end,
            recent_invalid_avg_intervals: self.recent_invalid_avg_intervals,
        }
    }
}

impl<F: Fn(&IntervalData) -> IntervalDerivedData> ScalingAdapter<F> {
    /// The function that derives the metrics of an interval.
    pub closed spec fn calc_metrics(&self) -> F {
        self.parameters.calc_metrics
    }

    /// Whether the function that derives metrics can be called on every
    /// interval.
    pub open spec fn well_formed(&self) -> bool {
        forall|data: &IntervalData| call_requires(self.calc_metrics(), (data,))
    }

    /// Whether `metrics` can be what the controller derives for the interval
    /// from its latest snapshot to `snapshot`: none where the targets
    /// changed, and otherwise a result of its function on that interval.
    pub open spec fn may_derive(
        &self,
        snapshot: SnapshotView,
        metrics: Option<IntervalDerivedData>,
    ) -> bool {
        match metrics {
            Some(derived_data) => {
                &&& self@.latest_snapshot.targets == snapshot.targets
                &&& exists|data: IntervalData|
                    #![auto]
                    data.is_between(self@.latest_snapshot, snapshot) && call_ensures(
                        self.calc_metrics(),
                        (&data,),
                        derived_data,
                    )
            },
            None => self@.latest_snapshot.targets != snapshot.targets,
        }
    }

    /// A controller for a traceset that the kernel registered under
    /// `kernel_id`, with no targets yet. `counters` are the traceset's
    /// counters at `now`. Without a traceset there is no controller.
    pub fn new(
        params: ScalingParameters<F>,
        kernel_id: Option<i32>,
        counters: &KernelCounters,
        now: u64,
    ) -> (created: Result<Self, AdapterError>)
        ensures
            created is Ok <==> kernel_id is Some && params.syscall_nrs@.len() <= MAX_SYSCALLS,
            created matches Err(error) ==> error == AdapterError::TracesetInitFailure,
            created matches Ok(adapter) ==> {
                &&& adapter.calc_metrics() == params.calc_metrics
                &&& params.accepts_every_interval() ==> adapter.well_formed()
                &&& adapter@ == AdapterView {
                    state: AdapterState::Startup,
                    targets: Set::<i32>::empty(),
                    syscalls: params.syscall_nrs@,
                    check_interval_ms: params.check_interval_ms,
                    stability_factor: params.stability_factor,
                    metrics: Seq::<IntervalMetrics>::empty(),
                    averaged: Seq::<AveragedIntervalMetrics>::empty(),
                    latest_snapshot: snapshot_of(
                        Set::<i32>::empty(),
                        params.syscall_nrs@,
                        *counters,
                        now,
                    ),
                    latest_avg_interval_end: now,
                    recent_invalid_avg_intervals: 0,
                }
            },
    {
        let no_targets: Vec<i32> = Vec::new();
        let traceset = match Traceset::new(
            no_targets.as_slice(),
            params.syscall_nrs.as_slice(),
            kernel_id,
        ) {
            Some(traceset) => traceset,
            None => {
                return Err(AdapterError::TracesetInitFailure);
            },
        };
        proof {
            assert(no_targets@.to_set() =~= Set::<i32>::empty());
        }
        let initial_snapshot = traceset.get_snapshot(counters, now);
        Ok(
            ScalingAdapter {
                parameters: params,
                traceset,
                state: AdapterState::Startup,
                metrics_history: MetricsHistory::new(),
                metrics_history_averaged: AveragedMetricsHistory::new(),
                latest_snapshot: initial_snapshot,
                latest_avg_interval_end: now,
                recent_invalid_avg_intervals: 0,
            },
        )
    }

    /// Records `tracee_pid` as traced and hands on whether the kernel
    /// accepted it.
    pub fn add_tracee(&mut self, tracee_pid: i32, kernel_ok: bool) -> (ok: bool)
        ensures
            ok == kernel_ok,
            final(self)@ == (AdapterView {
                targets: old(self)@.targets.insert(tracee_pid),
                ..old(self)@
            }),
            final(self).calc_metrics() == old(self).calc_metrics(),
            old(self).well_formed() ==> final(self).well_formed(),
    {
        self.traceset.register_target(tracee_pid, kernel_ok)
    }

    /// Forgets `tracee_pid` where the kernel stopped tracing it, and hands
    /// on whether it did.
    pub fn remove_tracee(&mut self, tracee_pid: i32, kernel_ok: bool) -> (ok: bool)
        ensures
            ok == kernel_ok,
            final(self)@ == (AdapterView {
                targets: if kernel_ok {
                    old(self)@.targets.remove(tracee_pid)
                } else {
                    old(self)@.targets
                },
                ..old(self)@
            }),
            final(self).calc_metrics() == old(self).calc_metrics(),
            old(self).well_formed() ==> final(self).well_formed(),
    {
        self.traceset.deregister_target(tracee_pid, kernel_ok)
    }

    /// How many threads are registered as traced.
    pub fn amount_targets(&self) -> (amount: usize)
        ensures
            amount == self@.targets.len(),
    {
        broadcast use vstd::std_specs::hash::group_hash_axioms;

        self.traceset.targets.len()
    }

    /// What the traceset shows where the kernel's counters are `counters` at
    /// `now`.
    pub fn take_snapshot(&self, counters: &KernelCounters, now: u64) -> (snapshot: TracesetSnapshot)
        ensures
            snapshot@ == snapshot_of(self@.targets, self@.syscalls, *counters, now),
    {
        self.traceset.get_snapshot(counters, now)
    }

    /// Takes `snapshot` as the latest one. With metrics, the interval since
    /// the snapshot before becomes the newest entry of the history. Returns
    /// whether there were metrics.
    pub fn record_snapshot(
        &mut self,
        snapshot: TracesetSnapshot,
        metrics: Option<IntervalDerivedData>,
    ) -> (recorded: bool)
        requires
            old(self).well_formed(),
        ensures
            recorded == metrics is Some,
            final(self)@ == after_snapshot(old(self)@, snapshot@, metrics),
            final(self).calc_metrics() == old(self).calc_metrics(),
            final(self).well_formed(),
    {
        broadcast use vstd::std_specs::hash::group_hash_axioms;

        let is_success = match metrics {
            Some(derived_data) => {
                let history_point = IntervalMetrics {
                    derived_data,
                    amount_targets: self.latest_snapshot.targets.len(),
                    interval_start: self.latest_snapshot.timestamp,
                    interval_end: snapshot.timestamp,
                };
                self.metrics_history.add(history_point);
                true
            },
            None => false,
        };
        self.latest_snapshot = snapshot;
        assert(self.calc_metrics() == old(self).calc_metrics());
        is_success
    }

    /// Takes a new snapshot from `counters`, read at `now`. Where the
    /// targets are those of the snapshot before, the interval between the two
    /// is valid: its metrics are derived and become the newest entry of the
    /// history. Returns whether the interval was valid.
    pub fn update_history(&mut self, counters: &KernelCounters, now: u64) -> (valid: bool)
        requires
            old(self).well_formed(),
        ensures
            valid == (old(self)@.latest_snapshot.targets == old(self)@.targets),
            exists|metrics: Option<IntervalDerivedData>|
                #![auto]
                {
                    &&& old(self).may_derive(
                        snapshot_of(old(self)@.targets, old(self)@.syscalls, *counters, now),
                        metrics,
                    )
                    &&& final(self)@ == after_snapshot(
                        old(self)@,
                        snapshot_of(old(self)@.targets, old(self)@.syscalls, *counters, now),
                        metrics,
                    )
                },
            final(self).calc_metrics() == old(self).calc_metrics(),
            final(self).well_formed(),
    {
        let snapshot = self.traceset.get_snapshot(counters, now);
        let metrics = self.derive_metrics(&snapshot);
        self.record_snapshot(snapshot, metrics)
    }

    /// The metrics of the interval from the latest snapshot to `snapshot`,
    /// where that interval is valid.
    pub fn derive_metrics(
        &self,
        snapshot: &TracesetSnapshot,
    ) -> (metrics: Option<IntervalDerivedData>)
        requires
            self.well_formed(),
        ensures
            self.may_derive(snapshot@, metrics),
    {
        match IntervalData::new(&self.latest_snapshot, snapshot) {
            Some(data) => {
                assert(call_requires(self.calc_metrics(), (&data,)));
                Some((self.parameters.calc_metrics)(&data))
            },
            None => None,
        }
    }

    /// What the controller did last.
    pub fn state(&self) -> (state: AdapterState)
        ensures
            state == self@.state,
    {
        self.state
    }

    /// The newest average.
    pub fn get_latest_average(&self) -> (latest: Option<&AveragedIntervalMetrics>)
        ensures
            latest is Some <==> self@.averaged.len() > 0,
            latest matches Some(average) ==> *average == self@.averaged[0],
    {
        self.metrics_history_averaged.get(0)
    }

    /// How often in a row no average could be made.
    pub fn recent_invalid_avg_intervals(&self) -> (amount: usize)
        ensures
            amount == self@.recent_invalid_avg_intervals,
    {
        self.recent_invalid_avg_intervals
    }

    /// Whether `tracee_pid` is registered as traced.
    pub fn is_tracee(&self, tracee_pid: i32) -> (traced: bool)
        ensures
            traced == self@.targets.contains(tracee_pid),
    {
        broadcast use vstd::std_specs::hash::group_hash_axioms;

        self.traceset.targets.contains(&tracee_pid)
    }

    /// The metrics of the newest interval in the history.
    pub fn get_latest_metrics(&self) -> (latest: Option<&IntervalMetrics>)
        ensures
            latest is Some <==> self@.metrics.len() > 0,
            latest matches Some(metrics) ==> *metrics == self@.metrics[0],
    {
        self.metrics_history.get(0)
    }

    /// Averages the intervals that were recorded since the latest average.
    /// Returns whether there is a new average.
    pub fn update_avg_history(&mut self) -> (averaged: bool)
        ensures
            averaged == can_average(fresh_window(old(self)@)),
            final(self)@ == after_averaging(old(self)@),
            final(self).calc_metrics() == old(self).calc_metrics(),
            old(self).well_formed() ==> final(self).well_formed(),
    {
        let new_intervals = self.metrics_history.last(Some(self.latest_avg_interval_end));
        let averaged = AveragedIntervalMetrics::compute(new_intervals);
        if let Some(avgd_interval) = averaged {
            self.latest_avg_interval_end = avgd_interval.interval_end;
            self.metrics_history_averaged.add(avgd_interval);
            self.recent_invalid_avg_intervals = 0;
        } else if self.recent_invalid_avg_intervals < usize::MAX {
            self.recent_invalid_avg_intervals += 1;
        }
        assert(self.calc_metrics() == old(self).calc_metrics());
        averaged.is_some()
    }

    fn scaling_advice_startup(&mut self) -> (advice: i32)
        ensures
            advice == startup_transition().advice,
            final(self)@ == (AdapterView { state: startup_transition().state, ..old(self)@ }),
            final(self).calc_metrics() == old(self).calc_metrics(),
    {
        self.state = AdapterState::Scaling(2);
        1
    }

    fn scaling_advice_settled(&mut self, last_direction: Direction) -> (advice: i32)
        requires
            old(self)@.averaged.len() >= 2,
        ensures
            advice == settled_transition(
                last_direction,
                old(self)@.averaged[0],
                old(self)@.averaged[1],
                old(self)@.stability_factor,
            ).advice,
            final(self)@ == (AdapterView {
                state: settled_transition(
                    last_direction,
                    old(self)@.averaged[0],
                    old(self)@.averaged[1],
                    old(self)@.stability_factor,
                ).state,
                ..old(self)@
            }),
            final(self).calc_metrics() == old(self).calc_metrics(),
    {
        let latest = *self.metrics_history_averaged.get(0).unwrap();
        let previous = *self.metrics_history_averaged.get(1).unwrap();
        let direction = if is_better(&latest, &previous, self.parameters.stability_factor) {
            Direction::Up
        } else if is_worse(&latest, &previous, self.parameters.stability_factor)
            || has_deviation_grown(&latest, &previous) {
            Direction::Down
        } else {
            last_direction.get_opposite()
        };
        self.state = AdapterState::Exploring(direction);
        direction.step_size()
    }

    fn scaling_advice_exploring(&mut self, direction: Direction, now: u64) -> (advice: i32)
        requires
            old(self)@.averaged.len() >= 2,
            now + SETTLE_TIMEOUT_MS <= u64::MAX,
        ensures
            advice == exploring_transition(
                direction,
                old(self)@.averaged[0],
                old(self)@.averaged[1],
                old(self)@.stability_factor,
                now,
            ).advice,
            final(self)@ == (AdapterView {
                state: exploring_transition(
                    direction,
                    old(self)@.averaged[0],
                    old(self)@.averaged[1],
                    old(self)@.stability_factor,
                    now,
                ).state,
                ..old(self)@
            }),
            final(self).calc_metrics() == old(self).calc_metrics(),
    {
        let latest = *self.metrics_history_averaged.get(0).unwrap();
        let previous = *self.metrics_history_averaged.get(1).unwrap();
        let step_size = direction.step_size();
        if is_better(&latest, &previous, self.parameters.stability_factor) {
            self.state = AdapterState::Scaling(step_size);
            step_size
        } else if (is_worse(&latest, &previous, self.parameters.stability_factor) && direction
            == Direction::Down) || direction == Direction::Up {
            self.state = AdapterState::Settled(now + SETTLE_TIMEOUT_MS, direction);
            -step_size
        } else {
            self.state = AdapterState::Exploring(direction);
            step_size
        }
    }

    fn scaling_advice_scaling(&mut self, step_size: i32, now: u64) -> (advice: i32)
        requires
            old(self)@.averaged.len() >= 2,
        ensures
            advice == scaling_transition(
                step_size,
                old(self)@.averaged[0],
                old(self)@.averaged[1],
                old(self)@.stability_factor,
                now,
            ).advice,
            final(self)@ == (AdapterView {
                state: scaling_transition(
                    step_size,
                    old(self)@.averaged[0],
                    old(self)@.averaged[1],
                    old(self)@.stability_factor,
                    now,
                ).state,
                ..old(self)@
            }),
            final(self).calc_metrics() == old(self).calc_metrics(),
    {
        let latest = *self.metrics_history_averaged.get(0).unwrap();
        let previous = *self.metrics_history_averaged.get(1).unwrap();
        let direction = Direction::from_step_size(step_size);
        let new_step_size = grow_step(step_size);
        if is_better(&latest, &previous, self.parameters.stability_factor) {
            self.state = AdapterState::Scaling(new_step_size);
            new_step_size
        } else {
            self.state = AdapterState::Settled(now, direction);
            0
        }
    }

    /// Decides at `now`, from the averages at hand, by how many workers the
    /// pool should change.
    pub fn decide(&mut self, now: u64) -> (advice: i32)
        requires
            old(self).well_formed(),
            now + SETTLE_TIMEOUT_MS <= u64::MAX,
        ensures
            (final(self)@, advice as int) == decided(old(self)@, now),
            final(self).calc_metrics() == old(self).calc_metrics(),
            final(self).well_formed(),
            -MAX_STEP <= advice <= MAX_STEP,
            advice >= 0 || final(self)@.targets.len() + advice >= 1,
    {
        if self.recent_invalid_avg_intervals > 0 || self.metrics_history_averaged.size() < 2 {
            return 0;
        }
        let advice = match self.state {
            AdapterState::Startup => self.scaling_advice_startup(),
            AdapterState::Settled(timeout, direction) => {
                if now >= timeout {
                    self.scaling_advice_settled(direction)
                } else {
                    0
                }
            },
            AdapterState::Scaling(step_size) => self.scaling_advice_scaling(step_size, now),
            AdapterState::Exploring(direction) => self.scaling_advice_exploring(direction, now),
        };
        clamp_advice(advice, self.amount_targets())
    }

    /// What `get_scaling_advice` does once it has the traceset's snapshot at
    /// `now` and the metrics of the interval since the snapshot before, which
    /// are there where that interval is valid.
    pub fn advise_with(
        &mut self,
        snapshot: TracesetSnapshot,
        metrics: Option<IntervalDerivedData>,
        now: u64,
    ) -> (advice: i32)
        requires
            old(self).well_formed(),
            now + SETTLE_TIMEOUT_MS <= u64::MAX,
        ensures
            (final(self)@, advice as int) == advised(old(self)@, snapshot@, metrics, now),
            final(self).calc_metrics() == old(self).calc_metrics(),
            final(self).well_formed(),
            -MAX_STEP <= advice <= MAX_STEP,
            advice >= 0 || final(self)@.targets.len() + advice >= 1,
    {
        if !self.is_snapshot_due(now) {
            return 0;
        }
        self.record_snapshot(snapshot, metrics);
        if !self.is_advice_due(now) {
            return 0;
        }
        self.update_avg_history();
        self.decide(now)
    }

    /// Whether at `now` enough time has passed since the latest snapshot for
    /// a new one.
    pub fn is_snapshot_due(&self, now: u64) -> (due: bool)
        ensures
            due == snapshot_due(self@, now),
    {
        now >= self.latest_snapshot.timestamp && now - self.latest_snapshot.timestamp
            >= INTERVAL_MS
    }

    /// Whether at `now` enough time has passed since the latest average for
    /// a new decision.
    pub fn is_advice_due(&self, now: u64) -> (due: bool)
        ensures
            due == advice_due(self@, now),
    {
        let elapsed: u64 = if now >= self.latest_avg_interval_end {
            now - self.latest_avg_interval_end
        } else {
            0
        };
        elapsed >= self.parameters.check_interval_ms
    }

    /// The advice at `now`, where the kernel's counters are `counters`: by
    /// how many workers the pool should grow, or shrink where it is negative.
    /// The advice never takes the number of registered threads below one.
    /// `queue_size` does not bear on it.
    pub fn get_scaling_advice(
        &mut self,
        counters: &KernelCounters,
        now: u64,
        queue_size: i32,
    ) -> (advice: i32)
        requires
            old(self).well_formed(),
            now + SETTLE_TIMEOUT_MS <= u64::MAX,
        ensures
            exists|metrics: Option<IntervalDerivedData>|
                #![auto]
                {
                    &&& old(self).may_derive(
                        snapshot_of(old(self)@.targets, old(self)@.syscalls, *counters, now),
                        metrics,
                    )
                    &&& (final(self)@, advice as int) == advised(
                        old(self)@,
                        snapshot_of(old(self)@.targets, old(self)@.syscalls, *counters, now),
                        metrics,
                        now,
                    )
                },
            final(self).calc_metrics() == old(self).calc_metrics(),
            final(self).well_formed(),
            -MAX_STEP <= advice <= MAX_STEP,
            advice >= 0 || final(self)@.targets.len() + advice >= 1,
    {
        let snapshot = self.traceset.get_snapshot(counters, now);
        let metrics = self.derive_metrics(&snapshot);
        self.advise_with(snapshot, metrics, now)
    }
}

} // verus!
