//! The polling executor: a FIFO queue of tasks, each polled in
//! round-robin turns, with a pending task simply re-queued at the
//! back. It ignores wake notifications entirely, so it burns CPU
//! re-polling tasks that are not ready — the cost the waker-driven
//! executor exists to avoid.

use vstd::prelude::*;

verus! {

use std::collections::VecDeque;
use crate::task::{Context, Future, Poll, Task, TaskId};

/// A polling context whose waker identity nobody listens for: tasks
/// polled by the simple executor are re-queued regardless, so their
/// wake-ups carry no information.
pub fn dummy_waker() -> (c: Context)
    ensures
        c.waker.0 == u64::MAX,
{
    Context { waker: TaskId(u64::MAX) }
}

/// The identities of the tasks in a queue, in queue order.
pub open spec fn queued_ids<F: Future>(q: Seq<Task<F>>) -> Seq<u64> {
    q.map_values(|t: Task<F>| t.spec_id().0)
}

pub struct SimpleExecutor<F: Future> {
    task_queue: VecDeque<Task<F>>,
}

impl<F: Future> SimpleExecutor<F> {
    /// The queued tasks, next to poll first.
    pub closed spec fn queue(self) -> Seq<Task<F>> {
        self.task_queue@
    }

    /// Creates an executor with an empty task queue.
    pub fn new() -> (r: SimpleExecutor<F>)
        ensures
            r.queue().len() == 0,
    {
        SimpleExecutor { task_queue: VecDeque::new() }
    }

    /// Appends a task to the back of the queue.
    pub fn spawn(&mut self, task: Task<F>)
        ensures
            final(self).queue() == old(self).queue().push(task),
    {
        self.task_queue.push_back(task)
    }

    /// Polls queued tasks round-robin until all are done, spending
    /// at most the given number of polls: a completed task is
    /// dropped, a pending one goes to the back for the next round,
    /// and no task is ever invented — whatever remains queued
    /// carries the identity of a task that was queued at the start.
    /// Reports whether the queue was drained; with tasks that never
    /// complete it never would be, however large the budget.
    pub fn run(&mut self, max_polls: usize) -> (done: bool)
        ensures
            done == (final(self).queue().len() == 0),
            final(self).queue().len() <= old(self).queue().len(),
            forall|i: int| 0 <= i < final(self).queue().len() ==> queued_ids(old(self)
                .queue()).contains((#[trigger] final(self).queue()[i]).spec_id().0),
    {
        let mut polls: usize = 0;
        proof {
            assert(self.queue() == old(self).queue());
            assert forall|i: int| 0 <= i < self.queue().len() implies queued_ids(old(
                self).queue()).contains((#[trigger] self.queue()[i]).spec_id().0) by {
                assert(queued_ids(old(self).queue())[i] == self.queue()[i].spec_id().0);
            }
        }
        while polls < max_polls
            invariant
                polls <= max_polls,
                self.queue().len() <= old(self).queue().len(),
                forall|i: int| 0 <= i < self.queue().len() ==> queued_ids(old(self)
                    .queue()).contains((#[trigger] self.queue()[i]).spec_id().0),
            decreases max_polls - polls,
        {
            let ghost qsnap = self.queue();
            match self.task_queue.pop_front() {
                None => {
                    return true;
                },
                Some(mut task) => {
                    let ghost popped_id = task.spec_id();
                    proof {
                        assert(task == qsnap[0]);
                        assert(queued_ids(old(self).queue()).contains(qsnap[0].spec_id()
                            .0));
                        assert forall|i: int| 0 <= i < self.queue().len() implies
                            queued_ids(old(self).queue()).contains((#[trigger] self
                            .queue()[i]).spec_id().0) by {
                            assert(self.queue()[i] == qsnap[i + 1]);
                            assert(queued_ids(old(self).queue()).contains(qsnap[i + 1]
                                .spec_id().0));
                        }
                    }
                    let mut context = dummy_waker();
                    match task.poll(&mut context) {
                        Poll::Ready(_) => {},  // task done
                        Poll::Pending => {
                            let ghost qmid = self.queue();
                            self.task_queue.push_back(task);
                            proof {
                                assert forall|i: int| 0 <= i < self.queue().len() implies
                                    queued_ids(old(self).queue()).contains((
                                    #[trigger] self.queue()[i]).spec_id().0) by {
                                    if i < qmid.len() {
                                        assert(self.queue()[i] == qmid[i]);
                                        assert(queued_ids(old(self).queue()).contains(
                                            qmid[i].spec_id().0));
                                    } else {
                                        assert(self.queue()[i] == task);
                                        assert(task.spec_id() == popped_id);
                                        assert(popped_id == qsnap[0].spec_id());
                                        assert(queued_ids(old(self).queue()).contains(
                                            qsnap[0].spec_id().0));
                                    }
                                }
                            }
                        },
                    }
                },
            }
            polls = polls + 1;
        }
        self.task_queue.len() == 0
    }

    /// How many tasks wait in the queue.
    pub fn queued(&self) -> (r: usize)
        ensures
            r == self.queue().len(),
    {
        self.task_queue.len()
    }
}

} // verus!
