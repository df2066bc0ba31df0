//! Intervals between two snapshots, the metrics derived from them, and the
//! averages of such metrics over a window.

use crate::statistics::{
    has_statistics, mean, std_deviation, weighted_mean, weighted_std_deviation, WeightedValue,
};
use crate::tracesets::{lookup_syscall, same_targets, SnapshotView, SyscallData, TracesetSnapshot};
use vstd::prelude::*;

verus! {

/// How far a counter moved from `earlier` to `later`; zero where it went
/// back.
pub open spec fn counter_delta(later: int, earlier: int) -> int {
    if later >= earlier {
        later - earlier
    } else {
        0
    }
}

/// How far the counters of one system call moved.
pub open spec fn syscall_delta(later: SyscallData, earlier: SyscallData) -> SyscallData {
    SyscallData {
        count: counter_delta(later.count as int, earlier.count as int) as u32,
        total_time: counter_delta(later.total_time as int, earlier.total_time as int) as u64,
    }
}

/// For each system call of the earlier snapshot, in its order, how far the
/// counters moved up to the later snapshot.
pub open spec fn syscall_deltas(
    earlier: Seq<(i32, SyscallData)>,
    later: Seq<(i32, SyscallData)>,
) -> Seq<SyscallData> {
    Seq::new(
        earlier.len(),
        |i: int| syscall_delta(lookup_syscall(later, earlier[i].0), earlier[i].1),
    )
}

/// Whether a counter of one system call went back.
pub open spec fn syscall_went_back(later: SyscallData, earlier: SyscallData) -> bool {
    later.count < earlier.count || later.total_time < earlier.total_time
}

/// Whether some counter is smaller in the later snapshot than in the
/// earlier one.
pub open spec fn counters_went_back(earlier: SnapshotView, later: SnapshotView) -> bool {
    ||| later.read_bytes < earlier.read_bytes
    ||| later.write_bytes < earlier.write_bytes
    ||| later.blkio_delay < earlier.blkio_delay
    ||| exists|i: int|
        0 <= i < earlier.syscalls_data.len() && syscall_went_back(
            lookup_syscall(later.syscalls_data, #[trigger] earlier.syscalls_data[i].0),
            earlier.syscalls_data[i].1,
        )
}

/// What happened between two snapshots of one set of targets.
#[derive(Debug)]
pub struct IntervalData {
    /// Time of the earlier snapshot, in milliseconds since the Unix epoch.
    pub start: u64,
    /// Time of the later snapshot.
    pub end: u64,
    pub read_bytes: u64,
    pub write_bytes: u64,
    pub blkio_delay: u64,
    /// One entry for each followed system call, in the traceset's order.
    pub syscalls_data: Vec<SyscallData>,
    pub amount_targets: usize,
    /// Whether some counter went back between the snapshots, so that its
    /// entry here is zero.
    pub counter_anomaly: bool,
}

/// `a - b`, or zero where `b` is the larger.
pub fn subtract_or_zero(a: u64, b: u64) -> (difference: u64)
    ensures
        difference == counter_delta(a as int, b as int),
{
    match a.checked_sub(b) {
        Some(result) => result,
        None => 0,
    }
}

/// The counters that `entries` holds for system call `nr`.
pub fn find_syscall(entries: &Vec<(i32, SyscallData)>, nr: i32) -> (data: SyscallData)
    ensures
        data == lookup_syscall(entries@, nr),
{
    let mut i: usize = 0;
    assert(entries@.skip(0) =~= entries@);
    while i < entries.len()
        invariant
            i <= entries@.len(),
            lookup_syscall(entries@, nr) == lookup_syscall(entries@.skip(i as int), nr),
        decreases entries@.len() - i,
    {
        let ghost rest = entries@.skip(i as int);
        assert(rest[0] == entries@[i as int]);
        assert(rest.drop_first() =~= entries@.skip(i + 1));
        if entries[i].0 == nr {
            return entries[i].1;
        }
        i += 1;
    }
    SyscallData { count: 0, total_time: 0 }
}

impl IntervalData {
    /// Whether `self` is the interval from `earlier` to `later`.
    pub open spec fn is_between(self, earlier: SnapshotView, later: SnapshotView) -> bool {
        &&& self.start == earlier.timestamp
        &&& self.end == later.timestamp
        &&& self.read_bytes == counter_delta(later.read_bytes as int, earlier.read_bytes as int)
        &&& self.write_bytes == counter_delta(later.write_bytes as int, earlier.write_bytes as int)
        &&& self.blkio_delay == counter_delta(later.blkio_delay as int, earlier.blkio_delay as int)
        &&& self.syscalls_data@ == syscall_deltas(earlier.syscalls_data, later.syscalls_data)
        &&& self.amount_targets == earlier.targets.len()
        &&& self.counter_anomaly == counters_went_back(earlier, later)
    }

    /// The interval between two snapshots, where both show the same set of
    /// targets; none otherwise. A counter that is smaller in the later
    /// snapshot counts as not having moved, and the interval says that this
    /// happened.
    pub fn new(
        snapshot_earlier: &TracesetSnapshot,
        snapshot_later: &TracesetSnapshot,
    ) -> (interval: Option<IntervalData>)
        ensures
            interval is Some <==> snapshot_earlier@.targets == snapshot_later@.targets,
            interval matches Some(data) ==> data.is_between(snapshot_earlier@, snapshot_later@),
    {
        broadcast use vstd::std_specs::hash::group_hash_axioms;

        if !same_targets(&snapshot_earlier.targets, &snapshot_later.targets) {
            return None;
        }
        let read_bytes = subtract_or_zero(snapshot_later.read_bytes, snapshot_earlier.read_bytes);
        let write_bytes = subtract_or_zero(snapshot_later.write_bytes, snapshot_earlier.write_bytes);
        let blkio_delay = subtract_or_zero(snapshot_later.blkio_delay, snapshot_earlier.blkio_delay);
        let mut counter_anomaly = snapshot_later.read_bytes < snapshot_earlier.read_bytes
            || snapshot_later.write_bytes < snapshot_earlier.write_bytes || snapshot_later.blkio_delay
            < snapshot_earlier.blkio_delay;
        let ghost scalar_anomaly = counter_anomaly;
        let amount_targets = snapshot_earlier.targets.len();
        let mut syscalls_data: Vec<SyscallData> = Vec::new();
        let mut i: usize = 0;
        while i < snapshot_earlier.syscalls_data.len()
            invariant
                i <= snapshot_earlier.syscalls_data@.len(),
                syscalls_data@.len() == i,
                forall|j: int|
                    0 <= j < i ==> syscalls_data@[j] == syscall_delta(
                        lookup_syscall(
                            snapshot_later.syscalls_data@,
                            snapshot_earlier.syscalls_data@[j].0,
                        ),
                        snapshot_earlier.syscalls_data@[j].1,
                    ),
                counter_anomaly == (scalar_anomaly || exists|j: int|
                    0 <= j < i && syscall_went_back(
                        lookup_syscall(
                            snapshot_later.syscalls_data@,
                            #[trigger] snapshot_earlier.syscalls_data@[j].0,
                        ),
                        snapshot_earlier.syscalls_data@[j].1,
                    )),
            decreases snapshot_earlier.syscalls_data@.len() - i,
        {
            let earlier_data = snapshot_earlier.syscalls_data[i].1;
            let later_data = find_syscall(
                &snapshot_later.syscalls_data,
                snapshot_earlier.syscalls_data[i].0,
            );
            if later_data.count < earlier_data.count || later_data.total_time
                < earlier_data.total_time {
                counter_anomaly = true;
            }
            let count: u32 = if later_data.count >= earlier_data.count {
                later_data.count - earlier_data.count
            } else {
                0
            };
            let total_time = subtract_or_zero(later_data.total_time, earlier_data.total_time);
            syscalls_data.push(SyscallData { count, total_time });
            i += 1;
        }
        proof {
            assert(syscalls_data@ =~= syscall_deltas(
                snapshot_earlier.syscalls_data@,
                snapshot_later.syscalls_data@,
            ));
        }
        Some(
            IntervalData {
                start: snapshot_earlier.timestamp,
                end: snapshot_later.timestamp,
                read_bytes,
                write_bytes,
                blkio_delay,
                syscalls_data,
                amount_targets,
                counter_anomaly,
            },
        )
    }

    /// Start of the interval, in milliseconds since the Unix epoch.
    pub fn start_millis(&self) -> (millis: u64)
        ensures
            millis == self.start,
    {
        self.start
    }

    /// End of the interval, in milliseconds since the Unix epoch.
    pub fn end_millis(&self) -> (millis: u64)
        ensures
            millis == self.end,
    {
        self.end
    }
}

/// The two numbers that an embedder derives from an interval: the one by
/// which scaling is decided, and a second one that is only averaged.
#[derive(Debug, Clone, Copy, PartialEq, Eq, Structural)]
pub struct IntervalDerivedData {
    pub scale_metric: u32,
    pub reset_metric: u32,
}

/// The metrics of one interval, with the interval's bounds and the number of
/// targets during it.
#[derive(Debug, Clone, Copy, PartialEq, Eq, Structural)]
pub struct IntervalMetrics {
    pub derived_data: IntervalDerivedData,
    pub amount_targets: usize,
    pub interval_start: u64,
    pub interval_end: u64,
}

impl IntervalMetrics {
    /// Whether the interval does not end before it starts.
    pub open spec fn well_formed(self) -> bool {
        self.interval_start <= self.interval_end
    }

    /// Length of the interval in milliseconds.
    pub open spec fn duration(self) -> int {
        self.interval_end - self.interval_start
    }

    pub fn start_millis(&self) -> (millis: u64)
        ensures
            millis == self.interval_start,
    {
        self.interval_start
    }

    pub fn end_millis(&self) -> (millis: u64)
        ensures
            millis == self.interval_end,
    {
        self.interval_end
    }

    pub fn duration_millis(&self) -> (millis: u64)
        requires
            self.well_formed(),
        ensures
            millis == self.duration(),
    {
        self.interval_end - self.interval_start
    }
}

/// The samples that a window of intervals gives for one of the two metrics:
/// one for each interval, weighted by the interval's length in milliseconds.
pub open spec fn window_samples(window: Seq<IntervalMetrics>, scale: bool) -> Seq<WeightedValue> {
    Seq::new(
        window.len(),
        |i: int|
            WeightedValue {
                weight: window[i].duration() as u64,
                value: if scale {
                    window[i].derived_data.scale_metric
                } else {
                    window[i].derived_data.reset_metric
                },
            },
    )
}

/// Whether a window of intervals, newest first, can be averaged: it holds an
/// interval, none ends before it starts, and together they last at least a
/// millisecond and not longer than 64 bits can count.
pub open spec fn can_average(window: Seq<IntervalMetrics>) -> bool {
    &&& window.len() > 0
    &&& forall|i: int| 0 <= i < window.len() ==> (#[trigger] window[i]).well_formed()
    &&& has_statistics(window_samples(window, true))
}

/// Mean and standard deviation of the metrics over several intervals, each
/// interval counted once for every millisecond that it lasted.
#[derive(Debug, Clone, Copy, PartialEq, Eq, Structural)]
pub struct AveragedIntervalMetrics {
    pub derived_data_avg: IntervalDerivedData,
    pub derived_data_stddev: IntervalDerivedData,
    pub interval_start: u64,
    pub interval_end: u64,
    pub amount_intervals: usize,
}

impl AveragedIntervalMetrics {
    /// The averages over `window`, which lists intervals from the newest to
    /// the oldest.
    pub open spec fn of_window(window: Seq<IntervalMetrics>) -> AveragedIntervalMetrics {
        AveragedIntervalMetrics {
            derived_data_avg: IntervalDerivedData {
                scale_metric: weighted_mean(window_samples(window, true)) as u32,
                reset_metric: weighted_mean(window_samples(window, false)) as u32,
            },
            derived_data_stddev: IntervalDerivedData {
                scale_metric: weighted_std_deviation(window_samples(window, true)) as u32,
                reset_metric: weighted_std_deviation(window_samples(window, false)) as u32,
            },
            interval_start: window.last().interval_start,
            interval_end: window[0].interval_end,
            amount_intervals: window.len() as usize,
        }
    }

    /// Averages the metrics of `interval_metrics`, which lists intervals from
    /// the newest to the oldest. There is no average where the list cannot be
    /// averaged: see `can_average`.
    pub fn compute(interval_metrics: Vec<&IntervalMetrics>) -> (averaged: Option<Self>)
        ensures
            averaged is Some <==> can_average(interval_metrics@.unref()),
            averaged matches Some(a) ==> a == Self::of_window(interval_metrics@.unref()),
    {
        let ghost window = interval_metrics@.unref();
        if interval_metrics.len() == 0 {
            return None;
        }
        let mut scale_samples: Vec<WeightedValue> = Vec::new();
        let mut reset_samples: Vec<WeightedValue> = Vec::new();
        let mut i: usize = 0;
        while i < interval_metrics.len()
            invariant
                i <= interval_metrics@.len(),
                window == interval_metrics@.unref(),
                forall|j: int| 0 <= j < i ==> (#[trigger] window[j]).well_formed(),
                scale_samples@ == window_samples(window, true).take(i as int),
                reset_samples@ == window_samples(window, false).take(i as int),
            decreases interval_metrics@.len() - i,
        {
            let metrics = interval_metrics[i];
            assert(*metrics == window[i as int]);
            if metrics.interval_end < metrics.interval_start {
                return None;
            }
            let weight = metrics.duration_millis();
            scale_samples.push(WeightedValue { weight, value: metrics.derived_data.scale_metric });
            reset_samples.push(WeightedValue { weight, value: metrics.derived_data.reset_metric });
            proof {
                assert(scale_samples@ =~= window_samples(window, true).take(i + 1));
                assert(reset_samples@ =~= window_samples(window, false).take(i + 1));
            }
            i += 1;
        }
        proof {
            assert(scale_samples@ =~= window_samples(window, true));
            assert(reset_samples@ =~= window_samples(window, false));
            lemma_same_weights(window);
        }
        let avg_m1 = mean(&scale_samples);
        let avg_m2 = mean(&reset_samples);
        let stddev_m1 = std_deviation(&scale_samples);
        let stddev_m2 = std_deviation(&reset_samples);
        match (avg_m1, avg_m2, stddev_m1, stddev_m2) {
            (Some(scale_avg), Some(reset_avg), Some(scale_stddev), Some(reset_stddev)) => Some(
                AveragedIntervalMetrics {
                    derived_data_avg: IntervalDerivedData {
                        scale_metric: scale_avg,
                        reset_metric: reset_avg,
                    },
                    derived_data_stddev: IntervalDerivedData {
                        scale_metric: scale_stddev,
                        reset_metric: reset_stddev,
                    },
                    interval_start: interval_metrics[interval_metrics.len() - 1].interval_start,
                    interval_end: interval_metrics[0].interval_end,
                    amount_intervals: interval_metrics.len(),
                },
            ),
            _ => None,
        }
    }

    pub fn start_millis(&self) -> (millis: u64)
        ensures
            millis == self.interval_start,
    {
        self.interval_start
    }

    pub fn end_millis(&self) -> (millis: u64)
        ensures
            millis == self.interval_end,
    {
        self.interval_end
    }

    pub fn duration_millis(&self) -> (millis: u64)
        requires
            self.interval_start <= self.interval_end,
        ensures
            millis == self.interval_end - self.interval_start,
    {
        self.interval_end - self.interval_start
    }
}

/// Both metrics of a window are weighted alike.
pub proof fn lemma_same_weights(window: Seq<IntervalMetrics>)
    ensures
        crate::statistics::total_weight(window_samples(window, true))
            == crate::statistics::total_weight(window_samples(window, false)),
    decreases window.len(),
{
    let scale = window_samples(window, true);
    let reset = window_samples(window, false);
    if window.len() > 0 {
        lemma_same_weights(window.drop_last());
        assert(scale.drop_last() =~= window_samples(window.drop_last(), true));
        assert(reset.drop_last() =~= window_samples(window.drop_last(), false));
    }
}

/// A window in which every interval has the same scale metric averages to
/// that metric, with no deviation.
pub proof fn lemma_constant_window(window: Seq<IntervalMetrics>, c: u32)
    requires
        can_average(window),
        forall|i: int| 0 <= i < window.len() ==> window[i].derived_data.scale_metric == c,
    ensures
        AveragedIntervalMetrics::of_window(window).derived_data_avg.scale_metric == c,
        AveragedIntervalMetrics::of_window(window).derived_data_stddev.scale_metric == 0,
{
    crate::statistics::lemma_constant_statistics(window_samples(window, true), c as int);
}

/// Whether a snapshot names no system call twice.
pub open spec fn distinct_syscalls(snapshot: SnapshotView) -> bool {
    forall|i: int, j: int|
        0 <= i < j < snapshot.syscalls_data.len() ==> snapshot.syscalls_data[i].0
            != snapshot.syscalls_data[j].0
}

/// Whether `later` can have been taken after `earlier` from one traceset on
/// which no counter went back: it is younger, it follows the same system
/// calls in the same order, and no counter in it is smaller.
pub open spec fn follows(earlier: SnapshotView, later: SnapshotView) -> bool {
    &&& earlier.timestamp < later.timestamp
    &&& earlier.read_bytes <= later.read_bytes
    &&& earlier.write_bytes <= later.write_bytes
    &&& earlier.blkio_delay <= later.blkio_delay
    &&& earlier.syscalls_data.len() == later.syscalls_data.len()
    &&& forall|i: int|
        #![auto]
        0 <= i < earlier.syscalls_data.len() ==> {
            &&& earlier.syscalls_data[i].0 == later.syscalls_data[i].0
            &&& earlier.syscalls_data[i].1.count <= later.syscalls_data[i].1.count
            &&& earlier.syscalls_data[i].1.total_time <= later.syscalls_data[i].1.total_time
        }
}

/// In a list that names no system call twice, a call's counters are found at
/// the call's position.
pub proof fn lemma_lookup_at(entries: Seq<(i32, SyscallData)>, i: int)
    requires
        0 <= i < entries.len(),
        forall|a: int, b: int| 0 <= a < b < entries.len() ==> entries[a].0 != entries[b].0,
    ensures
        lookup_syscall(entries, entries[i].0) == entries[i].1,
    decreases i,
{
    if i > 0 {
        let rest = entries.drop_first();
        assert forall|a: int, b: int| 0 <= a < b < rest.len() implies rest[a].0 != rest[b].0 by {
            assert(rest[a] == entries[a + 1]);
            assert(rest[b] == entries[b + 1]);
        }
        assert(rest[i - 1] == entries[i]);
        lemma_lookup_at(rest, i - 1);
        assert(entries[0].0 != entries[i].0);
    }
}

/// The interval from a first to a third snapshot moves every counter as far
/// as the interval from the first to a second and the one from the second to
/// the third do together, where the three were taken in this order with no
/// counter going back and show the same targets.
pub proof fn lemma_intervals_add_up(
    first: SnapshotView,
    second: SnapshotView,
    third: SnapshotView,
    whole: IntervalData,
    head: IntervalData,
    tail: IntervalData,
)
    requires
        distinct_syscalls(first),
        distinct_syscalls(second),
        distinct_syscalls(third),
        follows(first, second),
        follows(second, third),
        first.targets == second.targets,
        second.targets == third.targets,
        whole.is_between(first, third),
        head.is_between(first, second),
        tail.is_between(second, third),
    ensures
        whole.read_bytes == head.read_bytes + tail.read_bytes,
        whole.write_bytes == head.write_bytes + tail.write_bytes,
        whole.blkio_delay == head.blkio_delay + tail.blkio_delay,
        whole.end - whole.start == (head.end - head.start) + (tail.end - tail.start),
        whole.amount_targets == head.amount_targets == tail.amount_targets,
        whole.syscalls_data@.len() == head.syscalls_data@.len() == tail.syscalls_data@.len(),
        forall|i: int|
            #![auto]
            0 <= i < whole.syscalls_data@.len() ==> {
                &&& whole.syscalls_data@[i].count == head.syscalls_data@[i].count
                    + tail.syscalls_data@[i].count
                &&& whole.syscalls_data@[i].total_time == head.syscalls_data@[i].total_time
                    + tail.syscalls_data@[i].total_time
            },
        !whole.counter_anomaly && !head.counter_anomaly && !tail.counter_anomaly,
{
    let a = first.syscalls_data;
    let b = second.syscalls_data;
    let c = third.syscalls_data;
    assert forall|i: int| 0 <= i < a.len() implies {
        &&& lookup_syscall(b, a[i].0) == b[i].1
        &&& lookup_syscall(c, a[i].0) == c[i].1
        &&& lookup_syscall(c, b[i].0) == c[i].1
    } by {
        lemma_lookup_at(b, i);
        lemma_lookup_at(c, i);
    }
    assert forall|i: int| 0 <= i < whole.syscalls_data@.len() implies {
        &&& whole.syscalls_data@[i].count == head.syscalls_data@[i].count
            + tail.syscalls_data@[i].count
        &&& whole.syscalls_data@[i].total_time == head.syscalls_data@[i].total_time
            + tail.syscalls_data@[i].total_time
    } by {
        assert(lookup_syscall(b, a[i].0) == b[i].1);
        assert(a[i].1.count <= b[i].1.count <= c[i].1.count);
    }
}

} // verus!
