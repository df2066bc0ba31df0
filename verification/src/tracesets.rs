//! The registry of traced threads and the counters sampled for them.
//!
//! The kernel side is not reached from here: every operation that involves
//! the kernel takes the kernel's answer as an argument.

use std::collections::HashSet;
use vstd::prelude::*;
use vstd::std_specs::iter::IteratorSpec;

verus! {

/// The largest number of system calls one traceset can follow.
pub const MAX_SYSCALLS: usize = 8;

/// How often a system call ran and how long it took in total, in nanoseconds.
#[derive(Debug, Clone, Copy, PartialEq, Eq, Structural)]
pub struct SyscallData {
    pub count: u32,
    pub total_time: u64,
}

impl SyscallData {
    /// The counters of a system call that never ran.
    pub open spec fn zero() -> SyscallData {
        SyscallData { count: 0, total_time: 0 }
    }
}

/// The view of a hash set of thread identifiers is finite.
pub proof fn lemma_targets_finite(targets: &HashSet<i32>)
    ensures
        targets@.finite(),
{
    broadcast use vstd::std_specs::hash::group_hash_axioms;

    vstd::std_specs::hash::axiom_spec_hash_keys_iter(targets);
    vstd::seq_lib::seq_to_set_is_finite(
        vstd::std_specs::hash::spec_hash_keys_iter(targets).remaining().unref(),
    );
}

/// Whether two sets of thread identifiers hold the same identifiers.
pub fn same_targets(a: &HashSet<i32>, b: &HashSet<i32>) -> (same: bool)
    ensures
        same == (a@ == b@),
{
    broadcast use vstd::std_specs::hash::group_hash_axioms;

    if a.len() != b.len() {
        return false;
    }
    let mut same = true;
    for target in it: a.iter()
        invariant
            it.seq().unref().to_set() == a@,
            same ==> forall|i: int|
                0 <= i < it.index() ==> b@.contains(#[trigger] it.seq().unref()[i]),
            !same ==> a@ != b@,
    {
        if !b.contains(target) {
            assert(it.seq().unref()[it.index() as int] == *target);
            assert(it.seq().unref().to_set().contains(*target));
            same = false;
        }
    }
    proof {
        if same {
            assert forall|k: i32| a@.contains(k) implies b@.contains(k) by {}
            lemma_targets_finite(a);
            lemma_targets_finite(b);
            vstd::set_lib::lemma_subset_equality(a@, b@);
        }
    }
    same
}

/// A set that holds the same identifiers as `targets`.
pub fn copy_targets(targets: &HashSet<i32>) -> (copy: HashSet<i32>)
    ensures
        copy@ == targets@,
{
    broadcast use vstd::std_specs::hash::group_hash_axioms;

    let mut copy: HashSet<i32> = HashSet::new();
    for target in it: targets.iter()
        invariant
            it.seq().unref().to_set() == targets@,
            forall|k: i32| copy@.contains(k) ==> targets@.contains(k),
            forall|i: int| 0 <= i < it.index() ==> copy@.contains(#[trigger] it.seq().unref()[i]),
    {
        assert(it.seq().unref()[it.index() as int] == *target);
        assert(it.seq().unref().to_set().contains(*target));
        copy.insert(*target);
    }
    proof {
        assert forall|k: i32| targets@.contains(k) implies copy@.contains(k) by {}
        assert(copy@ =~= targets@);
    }
    copy
}

/// The counters that the kernel keeps for one traceset, read at one moment.
pub struct KernelCounters {
    pub read_bytes: u64,
    pub write_bytes: u64,
    pub blkio_delay: u64,
    /// One entry for each followed system call, in the order in which the
    /// traceset was given them.
    pub syscalls: Vec<SyscallData>,
    /// How many threads the kernel traces for this traceset.
    pub amount_targets: usize,
}

/// What a traceset showed at one moment: the counters summed over its
/// targets, the targets themselves, and the time of reading.
pub struct TracesetSnapshot {
    pub read_bytes: u64,
    pub write_bytes: u64,
    pub blkio_delay: u64,
    /// System call number and counters, in the traceset's order.
    pub syscalls_data: Vec<(i32, SyscallData)>,
    pub targets: HashSet<i32>,
    /// Milliseconds since the Unix epoch.
    pub timestamp: u64,
}

/// A snapshot as contracts see it.
pub struct SnapshotView {
    pub read_bytes: u64,
    pub write_bytes: u64,
    pub blkio_delay: u64,
    pub syscalls_data: Seq<(i32, SyscallData)>,
    pub targets: Set<i32>,
    pub timestamp: u64,
}

impl View for TracesetSnapshot {
    type V = SnapshotView;

    open spec fn view(&self) -> SnapshotView {
        SnapshotView {
            read_bytes: self.read_bytes,
            write_bytes: self.write_bytes,
            blkio_delay: self.blkio_delay,
            syscalls_data: self.syscalls_data@,
            targets: self.targets@,
            timestamp: self.timestamp,
        }
    }
}

/// The snapshot that a traceset with these targets and system calls gives
/// of `counters` read at `timestamp`.
pub open spec fn snapshot_of(
    targets: Set<i32>,
    syscalls: Seq<i32>,
    counters: KernelCounters,
    timestamp: u64,
) -> SnapshotView {
    SnapshotView {
        read_bytes: counters.read_bytes,
        write_bytes: counters.write_bytes,
        blkio_delay: counters.blkio_delay,
        syscalls_data: Seq::new(
            syscalls.len(),
            |i: int| snapshot_entry(syscalls, counters.syscalls@, i),
        ),
        targets,
        timestamp,
    }
}

/// The counters that `entries` holds for system call `nr`: those of the first
/// entry with that number, or zero counters where there is none.
pub open spec fn lookup_syscall(entries: Seq<(i32, SyscallData)>, nr: i32) -> SyscallData
    decreases entries.len(),
{
    if entries.len() == 0 {
        SyscallData::zero()
    } else if entries[0].0 == nr {
        entries[0].1
    } else {
        lookup_syscall(entries.drop_first(), nr)
    }
}

/// The entry of a snapshot for the system call at position `i` of a traceset.
pub open spec fn snapshot_entry(syscalls: Seq<i32>, counters: Seq<SyscallData>, i: int) -> (
    i32,
    SyscallData,
) {
    (
        syscalls[i],
        if i < counters.len() {
            counters[i]
        } else {
            SyscallData::zero()
        },
    )
}

/// Whether `i` is the first position at which `syscalls` names `nr`.
pub open spec fn is_first_position(syscalls: Seq<i32>, nr: i32, i: int) -> bool {
    &&& 0 <= i < syscalls.len()
    &&& syscalls[i] == nr
    &&& forall|j: int| 0 <= j < i ==> syscalls[j] != nr
}

/// A set of traced threads with the system calls that are followed for them.
pub struct Traceset {
    pub id: i32,
    pub targets: HashSet<i32>,
    pub syscalls: Vec<i32>,
}

impl Traceset {
    /// Builds the local side of a traceset that the kernel registered under
    /// `kernel_id`. There is none where the kernel refused (`None`) or where
    /// more than `MAX_SYSCALLS` system calls are named.
    pub fn new(
        targets: &[i32],
        syscalls: &[i32],
        kernel_id: Option<i32>,
    ) -> (created: Option<Traceset>)
        ensures
            created is Some <==> kernel_id is Some && syscalls@.len() <= MAX_SYSCALLS,
            created matches Some(traceset) ==> {
                &&& Some(traceset.id) == kernel_id
                &&& traceset.targets@ == targets@.to_set()
                &&& traceset.syscalls@ == syscalls@
            },
    {
        broadcast use vstd::std_specs::hash::group_hash_axioms;

        let id = match kernel_id {
            Some(id) => id,
            None => {
                return None;
            },
        };
        if syscalls.len() > MAX_SYSCALLS {
            return None;
        }
        let mut target_set: HashSet<i32> = HashSet::new();
        let mut i: usize = 0;
        while i < targets.len()
            invariant
                i <= targets@.len(),
                target_set@ == targets@.take(i as int).to_set(),
            decreases targets@.len() - i,
        {
            let ghost seen = targets@.take(i as int);
            target_set.insert(targets[i]);
            proof {
                assert(targets@.take(i + 1) =~= seen.push(targets@[i as int]));
                lemma_to_set_push(seen, targets@[i as int]);
            }
            i += 1;
        }
        let mut syscall_list: Vec<i32> = Vec::new();
        let mut j: usize = 0;
        while j < syscalls.len()
            invariant
                j <= syscalls@.len(),
                syscall_list@ == syscalls@.take(j as int),
            decreases syscalls@.len() - j,
        {
            syscall_list.push(syscalls[j]);
            assert(syscalls@.take(j + 1) =~= syscalls@.take(j as int).push(syscalls@[j as int]));
            j += 1;
        }
        proof {
            assert(targets@.take(targets@.len() as int) =~= targets@);
            assert(syscalls@.take(syscalls@.len() as int) =~= syscalls@);
        }
        Some(Traceset { id, targets: target_set, syscalls: syscall_list })
    }

    /// Puts together a snapshot from the counters that were read at
    /// `timestamp`: it holds the targets registered now, and for each followed
    /// system call its number with its counters.
    pub fn get_snapshot(
        &self,
        counters: &KernelCounters,
        timestamp: u64,
    ) -> (snapshot: TracesetSnapshot)
        ensures
            snapshot@ == snapshot_of(self.targets@, self.syscalls@, *counters, timestamp),
    {
        TracesetSnapshot {
            read_bytes: self.get_read_bytes(counters),
            write_bytes: self.get_write_bytes(counters),
            blkio_delay: counters.blkio_delay,
            syscalls_data: self.get_all_syscall_data(counters),
            targets: copy_targets(&self.targets),
            timestamp,
        }
    }

    pub fn get_read_bytes(&self, counters: &KernelCounters) -> (bytes: u64)
        ensures
            bytes == counters.read_bytes,
    {
        counters.read_bytes
    }

    pub fn get_write_bytes(&self, counters: &KernelCounters) -> (bytes: u64)
        ensures
            bytes == counters.write_bytes,
    {
        counters.write_bytes
    }

    /// The counters of system call `syscall`, where the traceset follows it
    /// and the kernel gave counters for its position.
    pub fn get_syscall_data(
        &self,
        counters: &KernelCounters,
        syscall: i32,
    ) -> (data: Option<SyscallData>)
        ensures
            match data {
                Some(found) => exists|i: int|
                    #![auto]
                    {
                        &&& is_first_position(self.syscalls@, syscall, i)
                        &&& i < counters.syscalls@.len()
                        &&& found == counters.syscalls@[i]
                    },
                None => forall|i: int|
                    #![auto]
                    is_first_position(self.syscalls@, syscall, i) ==> i
                        >= counters.syscalls@.len(),
            },
    {
        let mut i: usize = 0;
        while i < self.syscalls.len()
            invariant
                i <= self.syscalls@.len(),
                forall|j: int| 0 <= j < i ==> self.syscalls@[j] != syscall,
            decreases self.syscalls@.len() - i,
        {
            if self.syscalls[i] == syscall {
                assert(is_first_position(self.syscalls@, syscall, i as int));
                if i < counters.syscalls.len() {
                    return Some(counters.syscalls[i]);
                } else {
                    return None;
                }
            }
            i += 1;
        }
        None
    }

    /// Number and counters of every followed system call, in the traceset's
    /// order; zero counters where the kernel gave none for a position.
    pub fn get_all_syscall_data(&self, counters: &KernelCounters) -> (all: Vec<(i32, SyscallData)>)
        ensures
            all@ == Seq::new(
                self.syscalls@.len(),
                |i: int| snapshot_entry(self.syscalls@, counters.syscalls@, i),
            ),
    {
        let mut all: Vec<(i32, SyscallData)> = Vec::new();
        let mut i: usize = 0;
        while i < self.syscalls.len()
            invariant
                i <= self.syscalls@.len(),
                all@.len() == i,
                forall|j: int|
                    0 <= j < i ==> all@[j] == snapshot_entry(self.syscalls@, counters.syscalls@, j),
            decreases self.syscalls@.len() - i,
        {
            let data = if i < counters.syscalls.len() {
                counters.syscalls[i]
            } else {
                SyscallData { count: 0, total_time: 0 }
            };
            all.push((self.syscalls[i], data));
            i += 1;
        }
        assert(all@ =~= Seq::new(
            self.syscalls@.len(),
            |i: int| snapshot_entry(self.syscalls@, counters.syscalls@, i),
        ));
        all
    }

    /// How many threads the kernel traces for this traceset.
    pub fn get_amount_targets(&self, counters: &KernelCounters) -> (amount: usize)
        ensures
            amount == counters.amount_targets,
    {
        counters.amount_targets
    }

    /// Records `target` as registered, whatever the kernel answered, and
    /// hands the kernel's answer on.
    pub fn register_target(&mut self, target: i32, kernel_ok: bool) -> (ok: bool)
        ensures
            ok == kernel_ok,
            final(self).targets@ == old(self).targets@.insert(target),
            final(self).id == old(self).id,
            final(self).syscalls == old(self).syscalls,
    {
        broadcast use vstd::std_specs::hash::group_hash_axioms;

        self.targets.insert(target);
        kernel_ok
    }

    /// Records every one of `targets` as registered and hands on the number
    /// that the kernel says it registered.
    pub fn register_targets(&mut self, targets: &[i32], kernel_registered: i32) -> (registered: i32)
        ensures
            registered == kernel_registered,
            final(self).targets@ == old(self).targets@.union(targets@.to_set()),
            final(self).id == old(self).id,
            final(self).syscalls == old(self).syscalls,
    {
        broadcast use vstd::std_specs::hash::group_hash_axioms;

        let mut i: usize = 0;
        while i < targets.len()
            invariant
                i <= targets@.len(),
                self.targets@ == old(self).targets@.union(targets@.take(i as int).to_set()),
                self.id == old(self).id,
                self.syscalls == old(self).syscalls,
            decreases targets@.len() - i,
        {
            let ghost seen = targets@.take(i as int);
            self.targets.insert(targets[i]);
            proof {
                assert(targets@.take(i + 1) =~= seen.push(targets@[i as int]));
                lemma_to_set_push(seen, targets@[i as int]);
                assert(self.targets@ =~= old(self).targets@.union(targets@.take(i + 1).to_set()));
            }
            i += 1;
        }
        proof {
            assert(targets@.take(targets@.len() as int) =~= targets@);
        }
        kernel_registered
    }

    /// Forgets `target` where the kernel stopped tracing it (`kernel_ok`), and
    /// hands the kernel's answer on. After `true` the target is not traced,
    /// whether it was before or not.
    pub fn deregister_target(&mut self, target: i32, kernel_ok: bool) -> (ok: bool)
        ensures
            ok == kernel_ok,
            final(self).targets@ == if kernel_ok {
                old(self).targets@.remove(target)
            } else {
                old(self).targets@
            },
            final(self).id == old(self).id,
            final(self).syscalls == old(self).syscalls,
    {
        broadcast use vstd::std_specs::hash::group_hash_axioms;

        if kernel_ok {
            self.targets.remove(&target);
        }
        kernel_ok
    }

    /// Forgets every one of `targets` where the kernel reports no error (a
    /// count that is not negative) and returns that count; after an error
    /// nothing is forgotten and the result is 0.
    pub fn deregister_targets(&mut self, targets: &[i32], kernel_removed: i32) -> (removed: i32)
        ensures
            removed == if kernel_removed >= 0 {
                kernel_removed
            } else {
                0
            },
            final(self).targets@ == if kernel_removed >= 0 {
                old(self).targets@.difference(targets@.to_set())
            } else {
                old(self).targets@
            },
            final(self).id == old(self).id,
            final(self).syscalls == old(self).syscalls,
    {
        broadcast use vstd::std_specs::hash::group_hash_axioms;

        if kernel_removed < 0 {
            return 0;
        }
        let mut i: usize = 0;
        while i < targets.len()
            invariant
                i <= targets@.len(),
                self.targets@ == old(self).targets@.difference(targets@.take(i as int).to_set()),
                self.id == old(self).id,
                self.syscalls == old(self).syscalls,
            decreases targets@.len() - i,
        {
            let ghost seen = targets@.take(i as int);
            self.targets.remove(&targets[i]);
            proof {
                assert(targets@.take(i + 1) =~= seen.push(targets@[i as int]));
                lemma_to_set_push(seen, targets@[i as int]);
                assert(self.targets@ =~= old(self).targets@.difference(
                    targets@.take(i + 1).to_set(),
                ));
            }
            i += 1;
        }
        proof {
            assert(targets@.take(targets@.len() as int) =~= targets@);
        }
        kernel_removed
    }
}

/// The set of a sequence with one more element is the set of the sequence
/// with that element added.
pub proof fn lemma_to_set_push(s: Seq<i32>, x: i32)
    ensures
        s.push(x).to_set() == s.to_set().insert(x),
{
    let extended = s.push(x);
    assert forall|k: i32| extended.to_set().contains(k) <==> s.to_set().insert(x).contains(
        k,
    ) by {
        if s.to_set().contains(k) {
            let i = choose|i: int| 0 <= i < s.len() && s[i] == k;
            assert(extended[i] == k);
        }
        if k == x {
            assert(extended[s.len() as int] == x);
        }
        if extended.to_set().contains(k) {
            let i = choose|i: int| 0 <= i < extended.len() && extended[i] == k;
            if i < s.len() {
                assert(s[i] == k);
            }
        }
    }
    assert(extended.to_set() =~= s.to_set().insert(x));
}

} // verus!
