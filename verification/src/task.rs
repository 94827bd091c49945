//! Cooperative tasks: a suspended computation is polled for progress
//! and reports either a final value or "not ready yet". A task that
//! reports not-ready is expected to arrange its own wake-up through
//! the waker identity its polling context carries.

use vstd::prelude::*;

verus! {

/// The outcome of polling a suspended computation.
#[derive(Clone, Copy, PartialEq, Eq, Debug)]
pub enum Poll<T> {
    Ready(T),
    Pending,
}

/// A process-wide task identifier, unique for the lifetime of the
/// kernel and never reused.
#[derive(Clone, Copy, PartialEq, Eq, Structural, Debug, PartialOrd, Ord, Hash)]
pub struct TaskId(pub u64);

impl TaskId {
    pub open spec fn as_int(self) -> int {
        self.0 as int
    }

    /// Draws the next unique identifier from the id well.
    pub fn new(ids: &mut TaskIdGen) -> (r: TaskId)
        requires
            old(ids).next_value() < u64::MAX,
        ensures
            r.0 == old(ids).next_value(),
            final(ids).next_value() == old(ids).next_value() + 1,
    {
        ids.fresh()
    }

    pub fn as_u64(self) -> (r: u64)
        ensures
            r == self.0,
    {
        self.0
    }
}

/// The monotonically increasing counter the kernel assigns task
/// identifiers from. In the running kernel this is a single atomic
/// counter; here whoever spawns tasks owns it and threads it through.
pub struct TaskIdGen {
    next_id: u64,
}

impl TaskIdGen {
    /// Identifiers handed out so far are exactly those below this
    /// value, so every later draw is fresh.
    pub closed spec fn next_value(self) -> u64 {
        self.next_id
    }

    pub fn new() -> (r: TaskIdGen)
        ensures
            r.next_value() == 0,
    {
        TaskIdGen { next_id: 0 }
    }

    /// Returns the next identifier, exactly once each.
    pub fn fresh(&mut self) -> (r: TaskId)
        requires
            old(self).next_value() < u64::MAX,
        ensures
            r.0 == old(self).next_value(),
            final(self).next_value() == old(self).next_value() + 1,
    {
        let id = TaskId(self.next_id);
        self.next_id = self.next_id + 1;
        id
    }
}

/// What a poll call knows about who is being polled: invoking the
/// waker for this identity re-schedules the task.
#[derive(Clone, Copy, PartialEq, Eq, Structural, Debug)]
pub struct Context {
    pub waker: TaskId,
}

/// A suspended computation that can be polled for progress. Tasks,
/// and anything a task awaits, implement this; the executor only ever
/// sees it through `poll`.
pub trait Future {
    type Output;

    fn poll(&mut self, cx: &mut Context) -> Poll<Self::Output>;
}

/// A source of a sequence of values, polled one element at a time;
/// ready-with-nothing signals that the stream is finished.
pub trait Stream {
    type Item;

    fn poll_next(&mut self, cx: &mut Context) -> Poll<Option<Self::Item>>;
}

/// An owned suspended computation with its unique identity. Executed
/// purely for its side effects: the executor discards the output.
pub struct Task<F: Future> {
    id: TaskId,
    future: F,
}

impl<F: Future> Task<F> {
    /// The identity the task carries.
    pub closed spec fn spec_id(self) -> TaskId {
        self.id
    }

    /// Wraps a suspended computation as a schedulable task with a
    /// fresh identity.
    pub fn new(ids: &mut TaskIdGen, future: F) -> (t: Task<F>)
        requires
            old(ids).next_value() < u64::MAX,
        ensures
            t.spec_id().0 == old(ids).next_value(),
            final(ids).next_value() == old(ids).next_value() + 1,
    {
        Task { id: TaskId::new(ids), future }
    }

    pub fn task_id(&self) -> (r: TaskId)
        ensures
            r == self.spec_id(),
    {
        self.id
    }

    /// Polls the wrapped computation once. What comes back is up to
    /// the wrapped computation; the identity never changes.
    pub fn poll(&mut self, context: &mut Context) -> (r: Poll<F::Output>)
        ensures
            final(self).spec_id() == old(self).spec_id(),
    {
        self.future.poll(context)
    }
}

} // verus!
