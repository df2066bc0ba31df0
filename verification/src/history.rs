//! Bounded histories of metrics, read from the newest entry back.

use crate::intervals::{AveragedIntervalMetrics, IntervalMetrics};
use vstd::prelude::*;

verus! {

/// How many interval metrics a `MetricsHistory` keeps.
pub const METRICS_HISTORY_CAPACITY: usize = 100;

/// How many averages an `AveragedMetricsHistory` keeps.
pub const AVERAGED_HISTORY_CAPACITY: usize = 5;

/// A history, newest entry first, after `point` was added to `history`: the
/// new entry comes first, and where the history was full its oldest entry is
/// gone.
pub open spec fn pushed<T>(history: Seq<T>, point: T, capacity: nat) -> Seq<T> {
    if history.len() < capacity {
        seq![point] + history
    } else {
        seq![point] + history.drop_last()
    }
}

/// The history, newest entry first, that holds `points` after they were
/// added one by one, `points[0]` first, to an empty history.
pub open spec fn filled<T>(points: Seq<T>, capacity: nat) -> Seq<T>
    decreases points.len(),
{
    if points.len() == 0 {
        Seq::empty()
    } else {
        pushed(filled(points.drop_last(), capacity), points.last(), capacity)
    }
}

/// Where in a ring of `capacity` slots, whose next write goes to slot `next`,
/// the entry lies that is `age` entries older than the newest.
pub open spec fn slot_of(next: int, capacity: int, age: int) -> int {
    if next - 1 - age >= 0 {
        next - 1 - age
    } else {
        capacity + next - 1 - age
    }
}

struct Slots<T> {
    buffer: Vec<T>,
    next_index: usize,
}

/// A ring of `N` slots in which a new entry overwrites the oldest once all
/// slots are taken.
struct Ring<T, const N: usize> {
    slots: Slots<T>,
}

impl<T, const N: usize> Ring<T, N> {
    #[verifier::type_invariant]
    spec fn ring_invariant(self) -> bool {
        &&& N > 0
        &&& self.slots.buffer@.len() <= N
        &&& self.slots.next_index < N
        &&& self.slots.buffer@.len() < N ==> self.slots.next_index == self.slots.buffer@.len()
    }

    /// The entries, newest first.
    closed spec fn view(self) -> Seq<T> {
        Seq::new(
            self.slots.buffer@.len(),
            |age: int| self.slots.buffer@[slot_of(self.slots.next_index as int, N as int, age)],
        )
    }

    fn new() -> (ring: Self)
        requires
            N > 0,
        ensures
            ring@ == Seq::<T>::empty(),
    {
        let ring = Ring { slots: Slots { buffer: Vec::new(), next_index: 0 } };
        assert(ring@ =~= Seq::<T>::empty());
        ring
    }

    fn add(&mut self, datapoint: T)
        ensures
            final(self)@ == pushed(old(self)@, datapoint, N as nat),
    {
        proof {
            use_type_invariant(&*self);
        }
        let ghost before = self@;
        let ghost old_buffer = self.slots.buffer@;
        let mut slots = Slots { buffer: Vec::new(), next_index: 0 };
        std::mem::swap(&mut slots, &mut self.slots);
        if slots.next_index >= slots.buffer.len() {
            slots.buffer.push(datapoint);
        } else {
            slots.buffer.set(slots.next_index, datapoint);
        }
        slots.next_index = if slots.next_index + 1 == N {
            0
        } else {
            slots.next_index + 1
        };
        self.slots = slots;
        proof {
            let after = self@;
            let expected = pushed(before, datapoint, N as nat);
            assert(after.len() == expected.len());
            assert forall|age: int| 0 <= age < after.len() implies after[age] == expected[age] by {
                if age > 0 {
                    if old_buffer.len() < N {
                        assert(expected[age] == before[age - 1]);
                    } else {
                        assert(expected[age] == before.drop_last()[age - 1]);
                    }
                }
            }
            assert(after =~= expected);
        }
    }

    fn get(&self, index: usize) -> (entry: Option<&T>)
        ensures
            entry is Some <==> index < self@.len(),
            entry matches Some(found) ==> *found == self@[index as int],
    {
        proof {
            use_type_invariant(self);
        }
        if index >= self.slots.buffer.len() {
            return None;
        }
        Some(self.at(index))
    }

    fn at(&self, index: usize) -> (entry: &T)
        requires
            index < self@.len(),
        ensures
            *entry == self@[index as int],
    {
        proof {
            use_type_invariant(self);
        }
        let slot = if self.slots.next_index >= 1 + index {
            self.slots.next_index - 1 - index
        } else {
            N - 1 - index + self.slots.next_index
        };
        &self.slots.buffer[slot]
    }

    fn clear(&mut self)
        ensures
            final(self)@ == Seq::<T>::empty(),
    {
        proof {
            use_type_invariant(&*self);
        }
        self.slots = Slots { buffer: Vec::new(), next_index: 0 };
        assert(self@ =~= Seq::<T>::empty());
    }

    fn size(&self) -> (size: usize)
        ensures
            size == self@.len(),
            size <= N,
    {
        proof {
            use_type_invariant(self);
        }
        self.slots.buffer.len()
    }
}

/// How many entries at the front of `history`, which is ordered newest
/// first, come before the first one that started before `since`.
pub open spec fn started_since(history: Seq<IntervalMetrics>, since: u64) -> nat
    decreases history.len(),
{
    if history.len() == 0 || history[0].interval_start < since {
        0
    } else {
        1 + started_since(history.drop_first(), since)
    }
}

/// The entries of `history`, newest first, up to the first one that started
/// before `since`; all of them where no time is given.
pub open spec fn recent(history: Seq<IntervalMetrics>, since: Option<u64>) -> Seq<
    IntervalMetrics,
> {
    match since {
        Some(time) => history.take(started_since(history, time) as int),
        None => history,
    }
}

/// `started_since` counts no more entries than there are, every entry that it
/// counts started at `since` or later, and the next one, if there is one,
/// started before.
pub proof fn lemma_started_since(history: Seq<IntervalMetrics>, since: u64)
    ensures
        started_since(history, since) <= history.len(),
        forall|i: int|
            0 <= i < started_since(history, since) ==> (#[trigger] history[i]).interval_start
                >= since,
        started_since(history, since) < history.len() ==> history[started_since(
            history,
            since,
        ) as int].interval_start < since,
    decreases history.len(),
{
    if history.len() == 0 || history[0].interval_start < since {
    } else {
        let rest = history.drop_first();
        lemma_started_since(rest, since);
        assert forall|i: int| 0 <= i < started_since(history, since) implies (
        #[trigger] history[i]).interval_start >= since by {
            if i > 0 {
                assert(history[i] == rest[i - 1]);
            }
        }
        if started_since(history, since) < history.len() {
            assert(history[started_since(history, since) as int] == rest[started_since(
                rest,
                since,
            ) as int]);
        }
    }
}

/// The metrics of the last `METRICS_HISTORY_CAPACITY` intervals.
pub struct MetricsHistory {
    ring: Ring<IntervalMetrics, METRICS_HISTORY_CAPACITY>,
}

impl View for MetricsHistory {
    type V = Seq<IntervalMetrics>;

    /// The entries, newest first.
    closed spec fn view(&self) -> Seq<IntervalMetrics> {
        self.ring@
    }
}

impl MetricsHistory {
    pub fn new() -> (history: Self)
        ensures
            history@ == Seq::<IntervalMetrics>::empty(),
    {
        MetricsHistory { ring: Ring::new() }
    }

    /// Adds `datapoint` as the newest entry; where the history is full, its
    /// oldest entry leaves.
    pub fn add(&mut self, datapoint: IntervalMetrics)
        ensures
            final(self)@ == pushed(old(self)@, datapoint, METRICS_HISTORY_CAPACITY as nat),
    {
        self.ring.add(datapoint);
    }

    /// The entries from the newest to the oldest. With a time given, the
    /// list ends before the first entry that started before that time.
    pub fn last(&self, since: Option<u64>) -> (entries: Vec<&IntervalMetrics>)
        ensures
            entries@.unref() == recent(self@, since),
            entries@.len() <= self@.len(),
            since matches Some(time) ==> {
                &&& forall|i: int|
                    0 <= i < entries@.len() ==> (#[trigger] self@[i]).interval_start >= time
                &&& entries@.len() < self@.len() ==> self@[entries@.len() as int].interval_start
                    < time
            },
    {
        let buffer_size = self.ring.size();
        let mut result: Vec<&IntervalMetrics> = Vec::new();
        let mut i: usize = 0;
        proof {
            assert(self@.skip(0) =~= self@);
        }
        while i < buffer_size
            invariant
                buffer_size == self@.len(),
                i <= buffer_size,
                result@.len() == i,
                result@.unref() == self@.take(i as int),
                since matches Some(time) ==> started_since(self@, time) == i + started_since(
                    self@.skip(i as int),
                    time,
                ),
            decreases buffer_size - i,
        {
            let entry = self.ring.at(i);
            let ghost listed = result@;
            proof {
                assert(self@.skip(i as int)[0] == self@[i as int]);
                assert(self@.skip(i as int).drop_first() =~= self@.skip(i + 1));
            }
            match since {
                Some(time) => {
                    if entry.interval_start < time {
                        proof {
                            lemma_started_since(self@, time);
                        }
                        return result;
                    }
                },
                None => {},
            }
            result.push(entry);
            proof {
                assert forall|j: int| 0 <= j < i + 1 implies #[trigger] result@.unref()[j]
                    == self@.take(i + 1)[j] by {
                    if j < i {
                        assert(result@[j] == listed[j]);
                        assert(listed.unref()[j] == self@.take(i as int)[j]);
                    }
                }
                assert(result@.unref() =~= self@.take(i + 1));
            }
            i += 1;
        }
        proof {
            assert(self@.take(buffer_size as int) =~= self@);
            assert(self@.skip(buffer_size as int).len() == 0);
            if let Some(time) = since {
                lemma_started_since(self@, time);
            }
        }
        result
    }

    /// The entry that is `index` entries older than the newest, if the
    /// history reaches that far back.
    pub fn get(&self, index: usize) -> (entry: Option<&IntervalMetrics>)
        ensures
            entry is Some <==> index < self@.len(),
            entry matches Some(found) ==> *found == self@[index as int],
    {
        self.ring.get(index)
    }

    pub fn clear(&mut self)
        ensures
            final(self)@ == Seq::<IntervalMetrics>::empty(),
    {
        self.ring.clear();
    }

    pub fn size(&self) -> (size: usize)
        ensures
            size == self@.len(),
            size <= METRICS_HISTORY_CAPACITY,
    {
        self.ring.size()
    }
}

/// The last `AVERAGED_HISTORY_CAPACITY` averages.
pub struct AveragedMetricsHistory {
    ring: Ring<AveragedIntervalMetrics, AVERAGED_HISTORY_CAPACITY>,
}

impl View for AveragedMetricsHistory {
    type V = Seq<AveragedIntervalMetrics>;

    /// The entries, newest first.
    closed spec fn view(&self) -> Seq<AveragedIntervalMetrics> {
        self.ring@
    }
}

impl AveragedMetricsHistory {
    pub fn new() -> (history: Self)
        ensures
            history@ == Seq::<AveragedIntervalMetrics>::empty(),
    {
        AveragedMetricsHistory { ring: Ring::new() }
    }

    /// Adds `datapoint` as the newest entry; where the history is full, its
    /// oldest entry leaves.
    pub fn add(&mut self, datapoint: AveragedIntervalMetrics)
        ensures
            final(self)@ == pushed(old(self)@, datapoint, AVERAGED_HISTORY_CAPACITY as nat),
    {
        self.ring.add(datapoint);
    }

    /// The entries from the newest to the oldest.
    pub fn last(&self) -> (entries: Vec<&AveragedIntervalMetrics>)
        ensures
            entries@.unref() == self@,
    {
        let buffer_size = self.ring.size();
        let mut result: Vec<&AveragedIntervalMetrics> = Vec::new();
        let mut i: usize = 0;
        while i < buffer_size
            invariant
                buffer_size == self@.len(),
                i <= buffer_size,
                result@.len() == i,
                result@.unref() == self@.take(i as int),
            decreases buffer_size - i,
        {
            let entry = self.ring.at(i);
            let ghost listed = result@;
            result.push(entry);
            proof {
                assert forall|j: int| 0 <= j < i + 1 implies #[trigger] result@.unref()[j]
                    == self@.take(i + 1)[j] by {
                    if j < i {
                        assert(result@[j] == listed[j]);
                        assert(listed.unref()[j] == self@.take(i as int)[j]);
                    }
                }
                assert(result@.unref() =~= self@.take(i + 1));
            }
            i += 1;
        }
        proof {
            assert(self@.take(buffer_size as int) =~= self@);
        }
        result
    }

    /// The entry that is `index` entries older than the newest, if the
    /// history reaches that far back.
    pub fn get(&self, index: usize) -> (entry: Option<&AveragedIntervalMetrics>)
        ensures
            entry is Some <==> index < self@.len(),
            entry matches Some(found) ==> *found == self@[index as int],
    {
        self.ring.get(index)
    }

    pub fn clear(&mut self)
        ensures
            final(self)@ == Seq::<AveragedIntervalMetrics>::empty(),
    {
        self.ring.clear();
    }

    pub fn size(&self) -> (size: usize)
        ensures
            size == self@.len(),
            size <= AVERAGED_HISTORY_CAPACITY,
    {
        self.ring.size()
    }
}

/// A history filled from empty holds the newest of the added points, as many
/// as fit, from the last added back.
pub proof fn lemma_filled<T>(points: Seq<T>, capacity: nat)
    requires
        capacity > 0,
    ensures
        filled(points, capacity).len() == if points.len() <= capacity {
            points.len()
        } else {
            capacity
        },
        forall|i: int|
            0 <= i < filled(points, capacity).len() ==> #[trigger] filled(points, capacity)[i]
                == points[points.len() - 1 - i],
    decreases points.len(),
{
    if points.len() > 0 {
        let before = points.drop_last();
        lemma_filled(before, capacity);
        let kept = filled(before, capacity);
        let after = filled(points, capacity);
        assert forall|i: int| 0 <= i < after.len() implies #[trigger] after[i] == points[points.len()
            - 1 - i] by {
            if i > 0 {
                if kept.len() < capacity {
                    assert(after[i] == kept[i - 1]);
                } else {
                    assert(after[i] == kept.drop_last()[i - 1]);
                }
                assert(kept[i - 1] == before[before.len() - 1 - (i - 1)]);
            }
        }
    }
}

/// However many points were added to an empty history, its newest entry is
/// the one added last.
pub proof fn lemma_newest_is_last_added<T>(points: Seq<T>, capacity: nat)
    requires
        capacity > 0,
        points.len() > 0,
    ensures
        filled(points, capacity).len() > 0,
        filled(points, capacity)[0] == points.last(),
{
    lemma_filled(points, capacity);
}

/// After `capacity + n` points were added to an empty history, with `n > 0`,
/// the history holds `capacity` entries and its oldest is the point that was
/// added after the first `n`.
pub proof fn lemma_oldest_after_overflow<T>(points: Seq<T>, capacity: nat, n: nat)
    requires
        capacity > 0,
        n > 0,
        points.len() == capacity + n,
    ensures
        filled(points, capacity).len() == capacity,
        filled(points, capacity)[capacity - 1] == points[n as int],
{
    lemma_filled(points, capacity);
}

} // verus!
