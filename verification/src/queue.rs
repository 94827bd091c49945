//! Bounded FIFO queues backed by crossbeam's array queue: one carries
//! raw scancode bytes from the interrupt handler to the keyboard
//! task, one carries woken task ids to the executor. The queue type
//! itself is outside code; each operation below is trusted with the
//! contract its source shows for exclusive access.

use vstd::prelude::*;

verus! {

/// A bounded FIFO queue of raw scancode bytes. Holds a
/// `crossbeam_queue::ArrayQueue<u8>`, which Verus cannot look into;
/// its contents and capacity are tracked through the two
/// uninterpreted functions below.
#[verifier::external_body]
pub struct ByteQueue {
    inner: crossbeam_queue::ArrayQueue<u8>,
}

/// The bytes the queue holds, oldest first.
pub uninterp spec fn byte_queue_contents(q: ByteQueue) -> Seq<u8>;

/// The capacity the queue was created with.
pub uninterp spec fn byte_queue_capacity(q: ByteQueue) -> nat;

impl ByteQueue {
    /// Relies on `crossbeam_queue::ArrayQueue::new`: an empty queue
    /// of the given capacity. The source panics on a zero capacity
    /// (and on one so large its rounded-up backing allocation cannot
    /// exist), so small positive capacities are required here.
    #[verifier::external_body]
    pub(crate) fn new(capacity: usize) -> (r: ByteQueue)
        requires
            0 < capacity <= 0x10000,
        ensures
            byte_queue_contents(r) == Seq::<u8>::empty(),
            byte_queue_capacity(r) == capacity,
    {
        ByteQueue { inner: crossbeam_queue::ArrayQueue::new(capacity) }
    }

    /// Relies on `ArrayQueue::push_mut`: with room the value joins
    /// the tail, with a full queue it comes back unchanged as the
    /// error.
    #[verifier::external_body]
    pub(crate) fn push(&mut self, value: u8) -> (r: Result<(), u8>)
        ensures
            byte_queue_capacity(*final(self)) == byte_queue_capacity(*old(self)),
            if byte_queue_contents(*old(self)).len() < byte_queue_capacity(*old(self)) {
                r == Ok::<(), u8>(()) && byte_queue_contents(*final(self))
                    == byte_queue_contents(*old(self)).push(value)
            } else {
                r == Err::<(), u8>(value) && byte_queue_contents(*final(self))
                    == byte_queue_contents(*old(self))
            },
    {
        self.inner.push_mut(value)
    }

    /// Relies on `ArrayQueue::pop_mut`: the oldest element leaves the
    /// head; an empty queue yields nothing.
    #[verifier::external_body]
    pub(crate) fn pop(&mut self) -> (r: Option<u8>)
        ensures
            byte_queue_capacity(*final(self)) == byte_queue_capacity(*old(self)),
            if byte_queue_contents(*old(self)).len() > 0 {
                r == Some(byte_queue_contents(*old(self))[0]) && byte_queue_contents(
                    *final(self)) == byte_queue_contents(*old(self)).drop_first()
            } else {
                r is None && byte_queue_contents(*final(self)) == byte_queue_contents(
                    *old(self))
            },
    {
        self.inner.pop_mut()
    }

    /// Relies on `ArrayQueue::len`: how many elements the queue
    /// holds.
    #[verifier::external_body]
    pub(crate) fn len(&self) -> (r: usize)
        ensures
            r == byte_queue_contents(*self).len(),
    {
        self.inner.len()
    }
}

/// A bounded FIFO queue of task identifiers: the executor's ready
/// queue, filled by wakers and drained by the scheduler. Same backing
/// type and same trusted operations as the byte queue, at a different
/// element type.
#[verifier::external_body]
pub struct TaskIdQueue {
    inner: crossbeam_queue::ArrayQueue<u64>,
}

/// The task ids the queue holds, oldest first.
pub uninterp spec fn task_queue_contents(q: TaskIdQueue) -> Seq<u64>;

/// The capacity the queue was created with.
pub uninterp spec fn task_queue_capacity(q: TaskIdQueue) -> nat;

impl TaskIdQueue {
    /// Relies on `crossbeam_queue::ArrayQueue::new`; see
    /// `ByteQueue::new` for the panic conditions the requires rules
    /// out.
    #[verifier::external_body]
    pub(crate) fn new(capacity: usize) -> (r: TaskIdQueue)
        requires
            0 < capacity <= 0x10000,
        ensures
            task_queue_contents(r) == Seq::<u64>::empty(),
            task_queue_capacity(r) == capacity,
    {
        TaskIdQueue { inner: crossbeam_queue::ArrayQueue::new(capacity) }
    }

    /// Relies on `ArrayQueue::push_mut`: with room the id joins the
    /// tail, with a full queue it comes back unchanged as the error.
    #[verifier::external_body]
    pub(crate) fn push(&mut self, value: u64) -> (r: Result<(), u64>)
        ensures
            task_queue_capacity(*final(self)) == task_queue_capacity(*old(self)),
            if task_queue_contents(*old(self)).len() < task_queue_capacity(*old(self)) {
                r == Ok::<(), u64>(()) && task_queue_contents(*final(self))
                    == task_queue_contents(*old(self)).push(value)
            } else {
                r == Err::<(), u64>(value) && task_queue_contents(*final(self))
                    == task_queue_contents(*old(self))
            },
    {
        self.inner.push_mut(value)
    }

    /// Relies on `ArrayQueue::pop_mut`: the oldest id leaves the
    /// head; an empty queue yields nothing.
    #[verifier::external_body]
    pub(crate) fn pop(&mut self) -> (r: Option<u64>)
        ensures
            task_queue_capacity(*final(self)) == task_queue_capacity(*old(self)),
            if task_queue_contents(*old(self)).len() > 0 {
                r == Some(task_queue_contents(*old(self))[0]) && task_queue_contents(
                    *final(self)) == task_queue_contents(*old(self)).drop_first()
            } else {
                r is None && task_queue_contents(*final(self)) == task_queue_contents(
                    *old(self))
            },
    {
        self.inner.pop_mut()
    }

    /// Relies on `ArrayQueue::is_empty`: whether the queue holds
    /// nothing.
    #[verifier::external_body]
    pub(crate) fn is_empty(&self) -> (r: bool)
        ensures
            r == (task_queue_contents(*self).len() == 0),
    {
        self.inner.is_empty()
    }

    /// Relies on `ArrayQueue::len`: how many ids the queue holds.
    #[verifier::external_body]
    pub(crate) fn len(&self) -> (r: usize)
        ensures
            r == task_queue_contents(*self).len(),
    {
        self.inner.len()
    }
}

} // verus!
