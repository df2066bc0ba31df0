use scaling_adapter::adapter::ScalingAdapter;
use scaling_adapter::intervals::{IntervalData, IntervalDerivedData};
use scaling_adapter::parameters::ScalingParameters;
use scaling_adapter::threadpool::adaptive::{keep_one_worker, AdaptiveThreadpool};
use scaling_adapter::threadpool::fixed::FixedThreadpool;
use scaling_adapter::threadpool::watermark::{WatermarkThreadpool, PRESSURE_THRESHOLD};
use scaling_adapter::threadpool::{Job, Threadpool, WorkerStep};
use scaling_adapter::tracesets::{KernelCounters, SyscallData};
use std::cell::RefCell;
use std::rc::Rc;
use std::time::Duration;

type Metrics = fn(&IntervalData) -> IntervalDerivedData;

type Work = Job<Box<dyn Fn()>>;

fn counters(write_bytes: u64) -> KernelCounters {
    KernelCounters {
        read_bytes: 0,
        write_bytes,
        blkio_delay: 0,
        syscalls: vec![SyscallData { count: 0, total_time: 0 }, SyscallData { count: 0, total_time: 0 }],
        amount_targets: 0,
    }
}

fn zero_metrics(_data: &IntervalData) -> IntervalDerivedData {
    IntervalDerivedData { scale_metric: 0, reset_metric: 0 }
}

fn written_bytes(data: &IntervalData) -> IntervalDerivedData {
    IntervalDerivedData { scale_metric: data.write_bytes as u32, reset_metric: data.write_bytes as u32 }
}

fn get_dummy_adapter() -> ScalingAdapter<Metrics> {
    let adapter_params = ScalingParameters::new(vec![1, 2], zero_metrics as Metrics);
    ScalingAdapter::new(adapter_params, Some(1), &counters(0), 1_000).expect("adapter creation failed")
}

fn recording_job(record: &Rc<RefCell<Vec<i32>>>, i: i32) -> Work {
    let record = record.clone();
    Job { function: Box::new(move || record.borrow_mut().push(i)) }
}

fn kind<J>(step: &WorkerStep<J>) -> &'static str {
    match step {
        WorkerStep::Run(_) => "run",
        WorkerStep::Spawn => "spawn",
        WorkerStep::Again => "again",
        WorkerStep::Wait => "wait",
        WorkerStep::Exit => "exit",
    }
}

/// Lets the workers of a fixed pool take turns until all of them wait, and runs what they take.
fn run_fixed(pool: &mut FixedThreadpool<Work>, workers: &[i32]) {
    loop {
        let mut ran = false;
        for &worker in workers {
            if let WorkerStep::Run(job) = pool.worker_step(worker) {
                assert!(pool.busy_workers_count() >= 1);
                assert!(pool.busy_workers_count() <= pool.amount_workers());
                job.execute();
                pool.job_done(worker);
                ran = true;
            }
        }
        if !ran {
            break;
        }
    }
}

#[test]
fn fixed_create() {
    let mut pool: FixedThreadpool<Work> = FixedThreadpool::new(5);
    for worker in 0..5 {
        pool.worker_started(100 + worker);
    }
    assert!(pool.amount_workers() == 5);
    assert!(pool.busy_workers_count() == 0);
    assert_eq!(pool.size(), 5);
}

#[test]
fn fixed_create_wait_destroy() {
    let mut fixed_pool: FixedThreadpool<Work> = FixedThreadpool::new(5);
    let workers = [1, 2, 3, 4, 5];
    for &worker in &workers {
        fixed_pool.worker_started(worker);
    }
    assert!(fixed_pool.wait_completion());
    assert!(!fixed_pool.destroy());
    assert!(fixed_pool.is_stopping());
    for (left, &worker) in workers.iter().enumerate() {
        assert_eq!(kind(&fixed_pool.worker_step(worker)), "exit");
        assert_eq!(fixed_pool.worker_exited(worker), left == 4);
    }
    assert!(fixed_pool.destroy());
    assert_eq!(fixed_pool.amount_workers(), 0);
}

#[test]
fn fixed_print_jobs() {
    let record = Rc::new(RefCell::new(Vec::new()));
    let mut fixed_pool: FixedThreadpool<Work> = FixedThreadpool::new(5);
    let workers = [1, 2, 3, 4, 5];
    for &worker in &workers {
        fixed_pool.worker_started(worker);
    }
    for i in 0..10 {
        let wake = fixed_pool.submit_job(recording_job(&record, i));
        assert_eq!(wake, i == 0);
    }
    assert!(!fixed_pool.wait_completion());
    run_fixed(&mut fixed_pool, &workers);
    assert!(fixed_pool.wait_completion());
    assert_eq!(*record.borrow(), (0..10).collect::<Vec<i32>>());
    assert!(!fixed_pool.destroy());
    for &worker in &workers {
        assert_eq!(kind(&fixed_pool.worker_step(worker)), "exit");
        fixed_pool.worker_exited(worker);
    }
    assert!(fixed_pool.destroy());
}

#[test]
fn jobs_are_handed_out_once_and_in_order() {
    let record = Rc::new(RefCell::new(Vec::new()));
    let mut pool: FixedThreadpool<Work> = FixedThreadpool::new(2);
    pool.worker_started(1);
    pool.worker_started(2);
    for i in 0..3 {
        pool.submit_job(recording_job(&record, i));
    }
    let first = pool.worker_step(1);
    let second = pool.worker_step(2);
    assert_eq!(pool.busy_workers_count(), 2);
    assert_eq!(pool.queue_size(), 1);
    assert!(!pool.wait_completion());
    match second {
        WorkerStep::Run(job) => job.execute(),
        _ => panic!("the second worker has no job"),
    }
    assert!(!pool.job_done(2));
    match first {
        WorkerStep::Run(job) => job.execute(),
        _ => panic!("the first worker has no job"),
    }
    assert!(!pool.job_done(1));
    assert_eq!(pool.busy_workers_count(), 0);
    assert!(!pool.wait_completion());
    match pool.worker_step(2) {
        WorkerStep::Run(job) => job.execute(),
        _ => panic!("the last job is gone"),
    }
    assert!(!pool.wait_completion());
    assert!(pool.job_done(2));
    assert!(pool.wait_completion());
    assert_eq!(kind(&pool.worker_step(1)), "wait");
    assert_eq!(*record.borrow(), vec![1, 0, 2]);
}

#[test]
fn busy_workers_never_outnumber_the_workers() {
    let record = Rc::new(RefCell::new(Vec::new()));
    let mut pool: FixedThreadpool<Work> = FixedThreadpool::new(3);
    for i in 0..6 {
        pool.submit_job(recording_job(&record, i));
    }
    assert_eq!(pool.busy_workers_count(), 0);
    for worker in 1..=3 {
        pool.worker_started(worker);
        assert!(matches!(pool.worker_step(worker), WorkerStep::Run(_)));
        assert_eq!(pool.busy_workers_count(), worker as usize);
        assert!(pool.busy_workers_count() <= pool.amount_workers());
    }
    assert!(matches!(pool.worker_step(1), WorkerStep::Run(_)));
    assert_eq!(pool.busy_workers_count(), 3);
    assert!(!pool.worker_exited(2));
    assert_eq!(pool.busy_workers_count(), 2);
    assert_eq!(pool.amount_workers(), 2);
    pool.job_done(1);
    pool.job_done(1);
    pool.job_done(77);
    assert_eq!(pool.busy_workers_count(), 1);
    assert!(pool.is_worker(3));
    assert!(!pool.is_worker(2));
}

#[test]
fn a_stopping_pool_hands_out_no_job() {
    let record = Rc::new(RefCell::new(Vec::new()));
    let mut pool: FixedThreadpool<Work> = FixedThreadpool::new(1);
    pool.worker_started(1);
    pool.submit_job(recording_job(&record, 0));
    pool.submit_job(recording_job(&record, 1));
    let running = pool.worker_step(1);
    assert!(!pool.destroy());
    assert!(matches!(running, WorkerStep::Run(_)));
    assert!(!pool.job_done(1));
    assert_eq!(kind(&pool.worker_step(1)), "exit");
    assert_eq!(pool.queue_size(), 1);
    assert!(pool.worker_exited(1));
    assert!(pool.destroy());
    assert!(record.borrow().is_empty());
}

#[test]
fn watermark_create() {
    let mut pool: WatermarkThreadpool<Work> = WatermarkThreadpool::new(5, 10, Duration::from_secs(10));
    for worker in 0..5 {
        pool.worker_started(worker);
    }
    assert!(pool.amount_workers() == 5);
    assert!(pool.busy_workers_count() == 0);
    assert_eq!(pool.min_size(), 5);
    assert_eq!(pool.max_size(), 10);
    assert_eq!(pool.current_size(), 5);
    assert_eq!(pool.idle_threshold(), Duration::from_secs(10));
}

#[test]
fn watermark_create_wait_destroy() {
    let mut watermark_pool: WatermarkThreadpool<Work> =
        WatermarkThreadpool::new(1, 10, Duration::from_secs(10));
    watermark_pool.worker_started(1);
    assert!(watermark_pool.wait_completion());
    assert!(!watermark_pool.destroy());
    assert_eq!(kind(&watermark_pool.worker_step(1)), "exit");
    assert!(watermark_pool.worker_exited(1));
    assert!(watermark_pool.destroy());
}

#[test]
fn watermark_print_jobs() {
    let record = Rc::new(RefCell::new(Vec::new()));
    let mut watermark_pool: WatermarkThreadpool<Work> =
        WatermarkThreadpool::new(1, 10, Duration::from_secs(10));
    let mut workers = vec![1];
    watermark_pool.worker_started(1);
    for i in 0..10 {
        watermark_pool.submit_job(recording_job(&record, i));
    }
    assert_eq!(watermark_pool.current_size(), 5);
    assert_eq!(watermark_pool.queue_size(), 14);
    let mut next_worker = 2;
    loop {
        let mut progressed = false;
        for worker in workers.clone() {
            match watermark_pool.worker_step(worker) {
                WorkerStep::Run(job) => {
                    job.execute();
                    watermark_pool.job_done(worker);
                    progressed = true;
                }
                WorkerStep::Spawn => {
                    watermark_pool.worker_started(next_worker);
                    workers.push(next_worker);
                    next_worker += 1;
                    progressed = true;
                }
                WorkerStep::Again => progressed = true,
                WorkerStep::Wait => {}
                WorkerStep::Exit => panic!("no worker leaves a pool that runs"),
            }
        }
        if !progressed {
            break;
        }
    }
    assert!(watermark_pool.wait_completion());
    assert_eq!(watermark_pool.amount_workers(), 5);
    let mut ran = record.borrow().clone();
    ran.sort();
    assert_eq!(ran, (0..10).collect::<Vec<i32>>());
    assert!(!watermark_pool.destroy());
    let last = workers.len() - 1;
    for (i, worker) in workers.into_iter().enumerate() {
        assert_eq!(kind(&watermark_pool.worker_step(worker)), "exit");
        assert_eq!(watermark_pool.worker_exited(worker), i == last);
    }
    assert!(watermark_pool.destroy());
}

#[test]
fn watermark_grows_under_pressure_up_to_its_largest_size() {
    let record = Rc::new(RefCell::new(Vec::new()));
    let mut pool: WatermarkThreadpool<Work> = WatermarkThreadpool::new(1, 3, Duration::from_millis(5));
    assert_eq!(PRESSURE_THRESHOLD, 5);
    let mut sizes = Vec::new();
    let mut queued = Vec::new();
    let mut wakes = Vec::new();
    for i in 0..10 {
        wakes.push(pool.submit_job(recording_job(&record, i)));
        sizes.push(pool.current_size());
        queued.push(pool.queue_size());
    }
    assert_eq!(wakes, vec![true, false, false, false, false, false, false, false, false, false]);
    assert_eq!(sizes, vec![1, 1, 1, 1, 1, 1, 2, 3, 3, 3]);
    assert_eq!(queued, vec![1, 2, 3, 4, 5, 6, 8, 10, 11, 12]);
    pool.worker_started(1);
    let mut steps = Vec::new();
    for _ in 0..13 {
        let step = pool.worker_step(1);
        steps.push(kind(&step));
        if let WorkerStep::Run(job) = step {
            job.execute();
            pool.job_done(1);
        }
    }
    assert_eq!(
        steps,
        vec![
            "run", "run", "run", "run", "run", "run", "run", "spawn", "run", "spawn", "run", "run",
            "wait"
        ]
    );
    assert_eq!(*record.borrow(), (0..10).collect::<Vec<i32>>());
}

#[test]
fn idle_workers_leave_down_to_the_least_size() {
    let mut pool: WatermarkThreadpool<Work> = WatermarkThreadpool::new(2, 2, Duration::from_millis(5));
    assert!(!pool.idle_timeout());
    assert_eq!(pool.current_size(), 2);
    let record = Rc::new(RefCell::new(Vec::new()));
    let mut pool: WatermarkThreadpool<Work> = WatermarkThreadpool::new(1, 4, Duration::from_millis(5));
    for i in 0..8 {
        pool.submit_job(recording_job(&record, i));
    }
    assert_eq!(pool.current_size(), 3);
    assert!(pool.idle_timeout());
    assert_eq!(pool.current_size(), 2);
    assert!(pool.idle_timeout());
    assert_eq!(pool.current_size(), 1);
    assert!(!pool.idle_timeout());
    assert_eq!(pool.current_size(), 1);
    let mut none: WatermarkThreadpool<Work> = WatermarkThreadpool::new(0, 0, Duration::from_millis(5));
    assert!(!none.idle_timeout());
    assert_eq!(none.current_size(), 0);
}

#[test]
fn adaptive_create() {
    let adapter_params = ScalingParameters::new(vec![1, 2], written_bytes as Metrics);
    let adapter = ScalingAdapter::new(adapter_params, Some(1), &counters(0), 1_000)
        .expect("adapter creation failed");
    let mut pool: AdaptiveThreadpool<Work, Metrics> = AdaptiveThreadpool::new(adapter);
    assert!(pool.worker_started(1, true));
    assert!(pool.wait_completion());
    assert!(!pool.destroy());
    assert_eq!(kind(&pool.worker_step(1)), "exit");
    assert!(pool.worker_exited(1, true));
    assert!(pool.destroy());
}

#[test]
fn adaptive_create_wait_destroy() {
    let mut adaptive_pool: AdaptiveThreadpool<Work, Metrics> =
        AdaptiveThreadpool::new(get_dummy_adapter());
    assert_eq!(adaptive_pool.next_worker_id(), 0);
    assert!(adaptive_pool.worker_started(1, true));
    assert!(adaptive_pool.wait_completion());
    assert!(!adaptive_pool.destroy());
    assert_eq!(kind(&adaptive_pool.worker_step(1)), "exit");
    assert!(adaptive_pool.worker_exited(1, true));
    assert!(adaptive_pool.destroy());
    assert_eq!(adaptive_pool.amount_workers(), 0);
    assert_eq!(adaptive_pool.scaling_adapter().amount_targets(), 0);
}

#[test]
fn adaptive_print_jobs() {
    let record = Rc::new(RefCell::new(Vec::new()));
    let mut adaptive_pool: AdaptiveThreadpool<Work, Metrics> =
        AdaptiveThreadpool::new(get_dummy_adapter());
    adaptive_pool.worker_started(1, true);
    for i in 0..10 {
        adaptive_pool.submit_job(recording_job(&record, i));
    }
    let mut now = 1_000;
    loop {
        now += 250;
        adaptive_pool.adapt_size(&counters(0), now);
        match adaptive_pool.worker_step(1) {
            WorkerStep::Run(job) => {
                assert_eq!(adaptive_pool.busy_workers_count(), 1);
                job.execute();
                adaptive_pool.job_done(1);
            }
            WorkerStep::Wait => break,
            _ => {}
        }
    }
    assert!(adaptive_pool.wait_completion());
    assert_eq!(*record.borrow(), (0..10).collect::<Vec<i32>>());
    assert!(!adaptive_pool.destroy());
    assert_eq!(kind(&adaptive_pool.worker_step(1)), "exit");
    assert!(adaptive_pool.worker_exited(1, true));
    assert!(adaptive_pool.destroy());
}

#[test]
fn empty_adaptive_pool_teardown() {
    let adapter_params = ScalingParameters::new(vec![1, 2], zero_metrics as Metrics);
    let adapter = ScalingAdapter::new(adapter_params, Some(1), &counters(0), 1_000).unwrap();
    let mut pool: AdaptiveThreadpool<Work, Metrics> = AdaptiveThreadpool::new(adapter);
    assert!(pool.wait_completion());
    assert!(pool.destroy());
    assert_eq!(pool.amount_workers(), 0);
}

#[test]
fn workers_are_traced_while_they_are_in_the_pool() {
    let mut pool: AdaptiveThreadpool<Work, Metrics> = AdaptiveThreadpool::new(get_dummy_adapter());
    for worker in [11, 12, 13] {
        assert!(pool.worker_started(worker, true));
        assert!(pool.scaling_adapter().is_tracee(worker));
    }
    assert_eq!(pool.scaling_adapter().amount_targets(), 3);
    assert!(!pool.worker_exited(12, true));
    assert!(!pool.scaling_adapter().is_tracee(12));
    assert!(!pool.is_worker(12));
    pool.destroy();
    assert!(!pool.worker_exited(11, true));
    assert!(pool.worker_exited(13, true));
    assert_eq!(pool.amount_workers(), 0);
    assert_eq!(pool.scaling_adapter().amount_targets(), 0);
}

#[test]
fn a_tracee_that_the_kernel_keeps_stays_registered() {
    let mut pool: AdaptiveThreadpool<Work, Metrics> = AdaptiveThreadpool::new(get_dummy_adapter());
    assert!(!pool.worker_started(11, false));
    assert!(pool.is_worker(11));
    assert!(pool.scaling_adapter().is_tracee(11));
    assert!(pool.worker_exited(11, false));
    assert!(!pool.is_worker(11));
    assert!(pool.scaling_adapter().is_tracee(11));
}

#[test]
fn the_last_worker_does_not_terminate() {
    let params = ScalingParameters::new(vec![1, 2], written_bytes as Metrics).with_check_interval_ms(1);
    let adapter = ScalingAdapter::new(params, Some(1), &counters(0), 1_000).unwrap();
    let mut pool: AdaptiveThreadpool<Work, Metrics> = AdaptiveThreadpool::new(adapter);
    for worker in [1, 2, 3] {
        pool.worker_started(worker, true);
    }
    let mut now = 1_000;
    let mut written = 0;
    let mut queued = Vec::new();
    for metric in [0, 100, 200, 200, 100, 300, 900, 2_700] {
        now += 200;
        written += metric;
        pool.adapt_size(&counters(written), now);
        queued.push(pool.queue_size());
    }
    assert_eq!(queued, vec![0, 0, 1, 1, 2, 3, 5, 7]);
    let mut steps = Vec::new();
    for _ in 0..2 {
        steps.push(kind(&pool.worker_step(1)));
    }
    assert_eq!(steps, vec!["exit", "exit"]);
    assert!(!pool.worker_exited(1, true));
    assert_eq!(kind(&pool.worker_step(2)), "exit");
    assert!(!pool.worker_exited(2, true));
    assert_eq!(pool.amount_workers(), 1);
    for _ in 0..3 {
        assert_eq!(kind(&pool.worker_step(3)), "again");
    }
    assert_eq!(kind(&pool.worker_step(3)), "spawn");
    assert_eq!(kind(&pool.worker_step(3)), "wait");
    assert_eq!(pool.amount_workers(), 1);
}

#[test]
fn commands_come_before_waiting_jobs() {
    let record = Rc::new(RefCell::new(Vec::new()));
    let params = ScalingParameters::new(vec![1, 2], written_bytes as Metrics).with_check_interval_ms(1);
    let adapter = ScalingAdapter::new(params, Some(1), &counters(0), 1_000).unwrap();
    let mut pool: AdaptiveThreadpool<Work, Metrics> = AdaptiveThreadpool::new(adapter);
    pool.worker_started(1, true);
    pool.submit_job(recording_job(&record, 0));
    pool.submit_job(recording_job(&record, 1));
    pool.adapt_size(&counters(0), 1_200);
    pool.adapt_size(&counters(100), 1_400);
    assert_eq!(pool.queue_size(), 2);
    pool.adapt_size(&counters(300), 1_600);
    assert_eq!(pool.queue_size(), 3);
    pool.adapt_size(&counters(700), 1_800);
    assert_eq!(pool.queue_size(), 6);
    let mut steps = Vec::new();
    for _ in 0..7 {
        let step = pool.worker_step(1);
        steps.push(kind(&step));
        if let WorkerStep::Run(job) = step {
            job.execute();
            pool.job_done(1);
        }
    }
    assert_eq!(steps, vec!["spawn", "spawn", "spawn", "spawn", "run", "run", "wait"]);
    assert_eq!(*record.borrow(), vec![0, 1]);
}

#[test]
fn resizing_leaves_one_worker() {
    assert_eq!(keep_one_worker(-4, 10), -4);
    assert_eq!(keep_one_worker(-4, 5), -4);
    assert_eq!(keep_one_worker(-4, 4), -3);
    assert_eq!(keep_one_worker(-1, 1), 0);
    assert_eq!(keep_one_worker(-2, 2), -1);
    assert_eq!(keep_one_worker(0, 1), 0);
    assert_eq!(keep_one_worker(0, 0), 1);
    assert_eq!(keep_one_worker(-3, 0), 1);
    assert_eq!(keep_one_worker(2, 0), 2);
    assert_eq!(keep_one_worker(4, usize::MAX), 4);
    assert_eq!(keep_one_worker(-4, usize::MAX), -4);
}

#[test]
fn worker_ids_count_up() {
    let mut pool: AdaptiveThreadpool<Work, Metrics> = AdaptiveThreadpool::new(get_dummy_adapter());
    assert_eq!(pool.next_worker_id(), 0);
    assert_eq!(pool.next_worker_id(), 1);
    assert_eq!(pool.next_worker_id(), 2);
}

#[test]
fn a_job_runs_its_function() {
    let record = Rc::new(RefCell::new(Vec::new()));
    let job = recording_job(&record, 5);
    job.execute();
    job.execute();
    assert_eq!(*record.borrow(), vec![5, 5]);
}
