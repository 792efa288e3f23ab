//! Bounded first-in first-out queue of fault records, used in stall mode to hold faults until
//! software deals with them.

use crate::types::FaultRecord;
use std::collections::VecDeque;
use vstd::prelude::*;

verus! {

/// Why a queue operation failed.
#[derive(Debug, Clone, Copy, PartialEq, Eq, Structural)]
pub enum FaultQueueError {
    /// The queue holds `capacity` faults already.
    QueueFull,
    /// The queue holds no fault.
    QueueEmpty,
    /// The queue's lock was poisoned.
    LockPoisoned,
}

/// What pushing `fault` onto a queue with contents and capacity `q` gives: the fault appended
/// at the back, or `QueueFull` and no change when the queue holds `capacity` faults or more.
pub open spec fn pushed(q: (Seq<FaultRecord>, usize), fault: FaultRecord) -> (Result<(), FaultQueueError>, (
    Seq<FaultRecord>,
    usize,
)) {
    if q.0.len() >= q.1 {
        (Err(FaultQueueError::QueueFull), q)
    } else {
        (Ok(()), (q.0.push(fault), q.1))
    }
}

/// What popping a queue with contents and capacity `q` gives: the front fault and the rest, or
/// nothing and no change when it is empty.
pub open spec fn popped(q: (Seq<FaultRecord>, usize)) -> (Option<FaultRecord>, (Seq<FaultRecord>, usize)) {
    if q.0.len() == 0 {
        (None, q)
    } else {
        (Some(q.0[0]), (q.0.drop_first(), q.1))
    }
}

/// A first-in first-out queue that holds at most `capacity` fault records.
#[derive(Debug)]
pub struct FaultQueue {
    queue: VecDeque<FaultRecord>,
    capacity: usize,
}

impl View for FaultQueue {
    type V = (Seq<FaultRecord>, usize);

    /// The queued faults, oldest first, and the capacity.
    closed spec fn view(&self) -> (Seq<FaultRecord>, usize) {
        (self.queue@, self.capacity)
    }
}

impl FaultQueue {
    /// The queue's invariant: it holds no more faults than its capacity.
    pub open spec fn wf(&self) -> bool {
        self@.0.len() <= self@.1
    }

    /// An empty queue that holds at most `capacity` faults.
    pub fn new(capacity: usize) -> (r: FaultQueue)
        ensures
            r@ == (Seq::<FaultRecord>::empty(), capacity),
            r.wf(),
    {
        FaultQueue { queue: VecDeque::with_capacity(capacity), capacity }
    }

    /// Appends `fault` unless the queue is full.
    pub fn push(&mut self, fault: FaultRecord) -> (r: Result<(), FaultQueueError>)
        ensures
            (r, final(self)@) == pushed(old(self)@, fault),
            old(self).wf() ==> final(self).wf(),
    {
        if self.queue.len() >= self.capacity {
            return Err(FaultQueueError::QueueFull);
        }
        self.queue.push_back(fault);
        Ok(())
    }

    /// Removes and returns the oldest fault.
    pub fn pop(&mut self) -> (r: Option<FaultRecord>)
        ensures
            (r, final(self)@) == popped(old(self)@),
            old(self).wf() ==> final(self).wf(),
    {
        self.queue.pop_front()
    }

    /// Number of queued faults.
    pub fn len(&self) -> (r: usize)
        ensures
            r == self@.0.len(),
    {
        self.queue.len()
    }

    /// Whether no fault is queued.
    pub fn is_empty(&self) -> (r: bool)
        ensures
            r == (self@.0.len() == 0),
    {
        self.len() == 0
    }

    /// Whether the queue holds `capacity` faults or more.
    pub fn is_full(&self) -> (r: bool)
        ensures
            r == (self@.0.len() >= self@.1),
    {
        self.len() >= self.capacity
    }

    /// The most faults the queue holds.
    pub fn capacity(&self) -> (r: usize)
        ensures
            r == self@.1,
    {
        self.capacity
    }

    /// Removes every fault.
    pub fn clear(&mut self)
        ensures
            final(self)@ == (Seq::<FaultRecord>::empty(), old(self)@.1),
            final(self).wf(),
    {
        self.queue.clear();
    }

    /// The oldest fault, left in the queue.
    pub fn peek(&self) -> (r: Option<FaultRecord>)
        ensures
            self@.0.len() == 0 ==> r == None::<FaultRecord>,
            self@.0.len() > 0 ==> r == Some(self@.0[0]),
    {
        if self.queue.len() == 0 {
            None
        } else {
            Some(self.queue[0])
        }
    }

    /// All queued faults, oldest first, left in the queue.
    pub fn get_all(&self) -> (r: Vec<FaultRecord>)
        ensures
            r@ == self@.0,
    {
        let mut out: Vec<FaultRecord> = Vec::new();
        let mut i: usize = 0;
        while i < self.queue.len()
            invariant
                i <= self@.0.len(),
                out@ == self@.0.take(i as int),
            decreases self@.0.len() - i,
        {
            out.push(self.queue[i]);
            assert(out@ =~= self@.0.take(i + 1));
            i = i + 1;
        }
        assert(out@ =~= self@.0);
        out
    }
}

impl Clone for FaultQueue {
    /// A queue with the same faults and capacity.
    fn clone(&self) -> (r: FaultQueue)
        ensures
            r@ == self@,
    {
        let mut queue: VecDeque<FaultRecord> = VecDeque::with_capacity(self.capacity);
        let mut i: usize = 0;
        while i < self.queue.len()
            invariant
                i <= self@.0.len(),
                queue@ == self@.0.take(i as int),
            decreases self@.0.len() - i,
        {
            queue.push_back(self.queue[i]);
            assert(queue@ =~= self@.0.take(i + 1));
            i = i + 1;
        }
        assert(queue@ =~= self@.0);
        FaultQueue { queue, capacity: self.capacity }
    }
}

/// First in, first out: a fault pushed onto a queue with room comes out only after every fault
/// that was there before it; popping an empty queue after the push returns that fault.
pub proof fn lemma_queue_fifo(q: (Seq<FaultRecord>, usize), fault: FaultRecord)
    requires
        q.0.len() < q.1,
    ensures
        pushed(q, fault).0 == Ok::<(), FaultQueueError>(()),
        popped(pushed(q, fault).1).0 == Some(if q.0.len() == 0 { fault } else { q.0[0] }),
        q.0.len() > 0 ==> popped(pushed(q, fault).1).1 == (popped(q).1.0.push(fault), q.1),
{
    if q.0.len() > 0 {
        assert(q.0.push(fault).drop_first() =~= q.0.drop_first().push(fault));
    }
}

/// A queue never holds more faults than its capacity: pushing and popping keep the bound.
pub proof fn lemma_queue_bounded(q: (Seq<FaultRecord>, usize), fault: FaultRecord)
    requires
        q.0.len() <= q.1,
    ensures
        pushed(q, fault).1.0.len() <= q.1,
        pushed(q, fault).1.1 == q.1,
        popped(q).1.0.len() <= q.1,
        popped(q).1.1 == q.1,
{
}

} // verus!
