use scaling_adapter::benchmark::{worker_function, WorkItem, WorkQueue};

#[test]
fn work_queue_hands_out_the_newest_first() {
    let mut queue = WorkQueue::new();
    assert_eq!(queue.size(), 0);
    assert_eq!(queue.pop(), None);
    queue.push(WorkItem::Write(1));
    queue.push(WorkItem::Clone);
    queue.push(WorkItem::Write(3));
    assert_eq!(queue.size(), 3);
    assert_eq!(queue.pop(), Some(WorkItem::Write(3)));
    assert_eq!(queue.pop(), Some(WorkItem::Clone));
    assert_eq!(queue.size(), 1);
    queue.push(WorkItem::Terminate);
    assert_eq!(queue.pop(), Some(WorkItem::Terminate));
    assert_eq!(queue.pop(), Some(WorkItem::Write(1)));
    assert_eq!(queue.pop(), None);
    assert_eq!(queue.size(), 0);
}

#[test]
fn a_worker_writes_until_it_is_told_otherwise() {
    let mut queue = WorkQueue::new();
    for item in [
        WorkItem::Write(9),
        WorkItem::Terminate,
        WorkItem::Write(7),
        WorkItem::Write(5),
        WorkItem::Write(3),
    ] {
        queue.push(item);
    }
    assert_eq!(worker_function(&mut queue), vec![3, 5, 7]);
    assert_eq!(queue.size(), 1);
    assert_eq!(worker_function(&mut queue), vec![9]);
    assert_eq!(queue.size(), 0);
    assert_eq!(worker_function(&mut queue), Vec::<usize>::new());
    queue.push(WorkItem::Write(1));
    queue.push(WorkItem::Clone);
    assert_eq!(worker_function(&mut queue), Vec::<usize>::new());
    assert_eq!(queue.pop(), Some(WorkItem::Write(1)));
}
