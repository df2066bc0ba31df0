//! The queue of a plain benchmark worker: a stack of work items that the
//! newest push leaves first.

use std::collections::VecDeque;
use vstd::prelude::*;

verus! {

/// What a benchmark worker is told to do.
#[derive(Debug, Clone, Copy, PartialEq, Eq, Structural)]
pub enum WorkItem {
    /// Write the file with this number.
    Write(usize),
    /// Start one more worker.
    Clone,
    /// End.
    Terminate,
}

/// Work items, handed out from the one pushed last.
pub struct WorkQueue {
    buffer: VecDeque<WorkItem>,
}

impl View for WorkQueue {
    type V = Seq<WorkItem>;

    /// The items, the next one to be handed out first.
    closed spec fn view(&self) -> Seq<WorkItem> {
        self.buffer@
    }
}

impl WorkQueue {
    pub fn new() -> (queue: Self)
        ensures
            queue@ == Seq::<WorkItem>::empty(),
    {
        WorkQueue { buffer: VecDeque::new() }
    }

    /// Takes out the item that was pushed last, if there is one.
    pub fn pop(&mut self) -> (item: Option<WorkItem>)
        ensures
            old(self)@.len() == 0 ==> item is None && final(self)@ == old(self)@,
            old(self)@.len() > 0 ==> item == Some(old(self)@[0]) && final(self)@ == old(
                self,
            )@.drop_first(),
    {
        let item = self.buffer.pop_front();
        proof {
            if old(self)@.len() > 0 {
                assert(self@ =~= old(self)@.drop_first());
            }
        }
        item
    }

    /// Puts `work_item` where it is handed out next.
    pub fn push(&mut self, work_item: WorkItem)
        ensures
            final(self)@ == seq![work_item] + old(self)@,
    {
        self.buffer.push_front(work_item);
    }

    pub fn size(&self) -> (size: usize)
        ensures
            size == self@.len(),
    {
        self.buffer.len()
    }
}

/// The numbers of the files that a worker writes before it ends: those of
/// the write items at the front of `items`.
pub open spec fn writes_before_end(items: Seq<WorkItem>) -> Seq<usize>
    decreases items.len(),
{
    if items.len() == 0 {
        Seq::empty()
    } else {
        match items[0] {
            WorkItem::Write(i) => seq![i] + writes_before_end(items.drop_first()),
            _ => Seq::empty(),
        }
    }
}

/// The queue that a worker leaves behind: what follows the first item that
/// is no write item.
pub open spec fn left_after_end(items: Seq<WorkItem>) -> Seq<WorkItem>
    decreases items.len(),
{
    if items.len() == 0 {
        items
    } else {
        match items[0] {
            WorkItem::Write(_) => left_after_end(items.drop_first()),
            _ => items.drop_first(),
        }
    }
}

/// Takes items from `queue` as a worker without a controller does: one
/// after the other until the queue is empty or an item is no write item,
/// which is taken too. Returns the numbers of the files to write, in the
/// order in which they were taken.
pub fn worker_function(queue: &mut WorkQueue) -> (writes: Vec<usize>)
    ensures
        writes@ == writes_before_end(old(queue)@),
        final(queue)@ == left_after_end(old(queue)@),
{
    let mut writes: Vec<usize> = Vec::new();
    proof {
        assert(writes@ + writes_before_end(queue@) =~= writes_before_end(old(queue)@));
    }
    loop
        invariant_except_break
            writes@ + writes_before_end(queue@) == writes_before_end(old(queue)@),
            left_after_end(queue@) == left_after_end(old(queue)@),
        ensures
            writes@ == writes_before_end(old(queue)@),
            queue@ == left_after_end(old(queue)@),
        decreases queue@.len(),
    {
        let ghost before = queue@;
        let ghost written = writes@;
        match queue.pop() {
            Some(WorkItem::Write(i)) => {
                writes.push(i);
                proof {
                    assert(writes@ + writes_before_end(queue@) =~= written + writes_before_end(
                        before,
                    ));
                }
            },
            Some(_) => {
                proof {
                    assert(writes@ + Seq::<usize>::empty() =~= writes@);
                }
                break ;
            },
            None => {
                proof {
                    assert(writes@ + Seq::<usize>::empty() =~= writes@);
                }
                break ;
            },
        }
    }
    writes
}

} // verus!
