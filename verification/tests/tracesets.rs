use scaling_adapter::tracesets::{
    copy_targets, same_targets, KernelCounters, SyscallData, Traceset, MAX_SYSCALLS,
};
use std::collections::HashSet;

fn counters(read_bytes: u64, write_bytes: u64, syscalls: &[(u32, u64)]) -> KernelCounters {
    KernelCounters {
        read_bytes,
        write_bytes,
        blkio_delay: 3,
        syscalls: syscalls
            .iter()
            .map(|&(count, total_time)| SyscallData { count, total_time })
            .collect(),
        amount_targets: 1,
    }
}

fn set(items: &[i32]) -> HashSet<i32> {
    items.iter().copied().collect()
}

#[test]
fn single_target_added() {
    let echoer_pid = 4711;
    let write_syscall_nr = 1;
    let syscalls = vec![write_syscall_nr];
    let no_targets: Vec<i32> = vec![];
    let mut traceset = match Traceset::new(&no_targets, &syscalls, Some(3)) {
        Some(traceset) => traceset,
        None => panic!("traceset creation failed"),
    };
    let is_added = traceset.register_target(echoer_pid, true);
    assert!(is_added);
    let seen = counters(0, 12, &[(4, 900)]);
    assert_eq!(traceset.get_read_bytes(&seen), 0);
    assert_eq!(traceset.get_write_bytes(&seen), 12);
    assert_eq!(traceset.id, 3);
    assert_eq!(traceset.get_amount_targets(&seen), 1);
    assert!(traceset.targets.len() == 1);
    let write_syscall_data = traceset.get_syscall_data(&seen, write_syscall_nr).unwrap();
    assert!(write_syscall_data.count > 0);
    let is_removed = traceset.deregister_target(echoer_pid, true);
    assert!(is_removed);
    assert!(traceset.targets.is_empty());
}

#[test]
fn no_traceset_without_the_kernel() {
    assert!(Traceset::new(&[], &[1], None).is_none());
    assert!(Traceset::new(&[1, 2], &[], None).is_none());
}

#[test]
fn at_most_eight_system_calls() {
    assert_eq!(MAX_SYSCALLS, 8);
    assert!(Traceset::new(&[], &[1, 2, 3, 4, 5, 6, 7, 8], Some(0)).is_some());
    assert!(Traceset::new(&[], &[1, 2, 3, 4, 5, 6, 7, 8, 9], Some(0)).is_none());
    assert!(Traceset::new(&[], &[], Some(0)).is_some());
}

#[test]
fn new_traceset_holds_targets_once() {
    let traceset = Traceset::new(&[5, 6, 5, 7, 6], &[0, 1], Some(-2)).unwrap();
    assert_eq!(traceset.id, -2);
    assert_eq!(traceset.targets, set(&[5, 6, 7]));
    assert_eq!(traceset.syscalls, vec![0, 1]);
}

#[test]
fn registration_is_recorded_whatever_the_kernel_says() {
    let mut traceset = Traceset::new(&[], &[], Some(1)).unwrap();
    assert!(traceset.register_target(10, true));
    assert!(!traceset.register_target(11, false));
    assert!(traceset.register_target(10, true));
    assert_eq!(traceset.targets, set(&[10, 11]));
}

#[test]
fn deregistration_needs_the_kernel() {
    let mut traceset = Traceset::new(&[10, 11], &[], Some(1)).unwrap();
    assert!(!traceset.deregister_target(10, false));
    assert_eq!(traceset.targets, set(&[10, 11]));
    assert!(traceset.deregister_target(10, true));
    assert_eq!(traceset.targets, set(&[11]));
    assert!(traceset.deregister_target(10, true));
    assert!(traceset.deregister_target(99, true));
    assert_eq!(traceset.targets, set(&[11]));
}

#[test]
fn bulk_registration_returns_the_kernels_count() {
    let mut traceset = Traceset::new(&[1], &[], Some(1)).unwrap();
    assert_eq!(traceset.register_targets(&[2, 3, 2], 2), 2);
    assert_eq!(traceset.targets, set(&[1, 2, 3]));
    assert_eq!(traceset.register_targets(&[], 0), 0);
    assert_eq!(traceset.register_targets(&[4], -1), -1);
    assert_eq!(traceset.targets, set(&[1, 2, 3, 4]));
}

#[test]
fn bulk_deregistration_forgets_nothing_after_an_error() {
    let mut traceset = Traceset::new(&[1, 2, 3, 4], &[], Some(1)).unwrap();
    assert_eq!(traceset.deregister_targets(&[1, 2], -1), 0);
    assert_eq!(traceset.targets, set(&[1, 2, 3, 4]));
    assert_eq!(traceset.deregister_targets(&[1, 2, 9], 2), 2);
    assert_eq!(traceset.targets, set(&[3, 4]));
    assert_eq!(traceset.deregister_targets(&[3], 0), 0);
    assert_eq!(traceset.targets, set(&[4]));
}

#[test]
fn snapshot_shows_counters_targets_and_time() {
    let mut traceset = Traceset::new(&[8], &[0, 1, 74], Some(1)).unwrap();
    let seen = counters(100, 200, &[(1, 10), (2, 20)]);
    let snapshot = traceset.get_snapshot(&seen, 123_456);
    assert_eq!(snapshot.read_bytes, 100);
    assert_eq!(snapshot.write_bytes, 200);
    assert_eq!(snapshot.blkio_delay, 3);
    assert_eq!(snapshot.timestamp, 123_456);
    assert_eq!(snapshot.targets, set(&[8]));
    assert_eq!(
        snapshot.syscalls_data,
        vec![
            (0, SyscallData { count: 1, total_time: 10 }),
            (1, SyscallData { count: 2, total_time: 20 }),
            (74, SyscallData { count: 0, total_time: 0 }),
        ]
    );
    traceset.register_target(9, true);
    assert_eq!(snapshot.targets, set(&[8]));
    assert_eq!(traceset.get_snapshot(&seen, 0).targets, set(&[8, 9]));
    assert_eq!(traceset.get_all_syscall_data(&seen), snapshot.syscalls_data);
}

#[test]
fn syscall_data_is_found_by_number() {
    let traceset = Traceset::new(&[], &[0, 1, 74, 1], Some(1)).unwrap();
    let seen = counters(0, 0, &[(1, 10), (2, 20), (3, 30), (4, 40)]);
    assert_eq!(traceset.get_syscall_data(&seen, 0), Some(SyscallData { count: 1, total_time: 10 }));
    assert_eq!(traceset.get_syscall_data(&seen, 1), Some(SyscallData { count: 2, total_time: 20 }));
    assert_eq!(traceset.get_syscall_data(&seen, 74), Some(SyscallData { count: 3, total_time: 30 }));
    assert_eq!(traceset.get_syscall_data(&seen, 2), None);
    let short = counters(0, 0, &[(1, 10)]);
    assert_eq!(traceset.get_syscall_data(&short, 1), None);
}

#[test]
fn target_sets_compare_by_content() {
    assert!(same_targets(&set(&[]), &set(&[])));
    assert!(same_targets(&set(&[1, 2, 3]), &set(&[3, 2, 1])));
    assert!(!same_targets(&set(&[1, 2]), &set(&[1, 2, 3])));
    assert!(!same_targets(&set(&[1, 2, 3]), &set(&[1, 2])));
    assert!(!same_targets(&set(&[1, 2]), &set(&[1, 3])));
    assert_eq!(copy_targets(&set(&[4, 5, 6])), set(&[4, 5, 6]));
    assert_eq!(copy_targets(&set(&[])), set(&[]));
}
