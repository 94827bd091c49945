//! The waker-driven executor: a table of owned tasks keyed by id, a
//! shared bounded ready queue of ids, and a cache of per-task
//! wakers. A task is polled only when its id is drawn from the ready
//! queue; a pending task stays out of the queue until an explicit
//! wake re-enqueues it.

use vstd::prelude::*;

verus! {

broadcast use {vstd::std_specs::btree::group_btree_axioms, vstd::laws_cmp::group_laws_cmp};

use std::collections::BTreeMap;
use crate::queue::{TaskIdQueue, task_queue_contents, task_queue_capacity};
use crate::task::{Context, Future, Poll, Task, TaskId};

/// How many pending wakes the ready queue can hold. Overflow is a
/// capacity-planning violation and fatal in the kernel, so callers
/// must stay below it.
pub const READY_QUEUE_CAPACITY: usize = 100;

/// The handle a pending operation holds to re-schedule its task:
/// bound to one task id, it wakes the task by pushing that id onto
/// the shared ready queue.
pub struct TaskWaker {
    pub task_id: TaskId,
}

impl TaskWaker {
    pub fn new(task_id: TaskId) -> (r: TaskWaker)
        ensures
            r.task_id == task_id,
    {
        TaskWaker { task_id }
    }

    /// Wakes the bound task: a bounded, non-blocking push of its id,
    /// safe to run from interrupt context. Waking an id twice is
    /// harmless: the scheduler skips ids whose task is gone.
    pub fn wake_task(&self, queue: &mut TaskIdQueue)
        requires
            task_queue_contents(*old(queue)).len() < task_queue_capacity(*old(queue)),
        ensures
            task_queue_contents(*final(queue)) == task_queue_contents(*old(queue)).push(
                self.task_id.0),
            task_queue_capacity(*final(queue)) == task_queue_capacity(*old(queue)),
    {
        let _ = queue.push(self.task_id.as_u64());
    }
}

pub struct Executor<F: Future> {
    tasks: BTreeMap<u64, Task<F>>,
    task_queue: TaskIdQueue,
    waker_cache: BTreeMap<u64, TaskWaker>,
}

impl<F: Future> Executor<F> {
    /// The owned tasks, keyed by their id.
    pub closed spec fn task_map(self) -> Map<u64, Task<F>> {
        self.tasks@
    }

    /// The ids waiting in the ready queue, oldest first.
    pub closed spec fn queue(self) -> Seq<u64> {
        task_queue_contents(self.task_queue)
    }

    /// The ids with a cached waker.
    pub closed spec fn cached_wakers(self) -> Set<u64> {
        self.waker_cache@.dom()
    }

    /// A waker is cached only for a live task, and each cached waker
    /// is bound to its own id; the ready queue keeps its fixed
    /// capacity.
    pub closed spec fn wf(self) -> bool {
        &&& forall|id: u64| #[trigger] self.cached_wakers().contains(id)
            ==> self.task_map().contains_key(id)
        &&& forall|id: u64| self.waker_cache@.dom().contains(id)
            ==> (#[trigger] self.waker_cache@[id]).task_id.0 == id
        &&& task_queue_capacity(self.task_queue) == READY_QUEUE_CAPACITY
    }

    /// Creates an executor with no tasks and an empty ready queue.
    pub fn new() -> (r: Executor<F>)
        ensures
            r.wf(),
            r.task_map() == Map::<u64, Task<F>>::empty(),
            r.queue() == Seq::<u64>::empty(),
            r.cached_wakers() == Set::<u64>::empty(),
    {
        Executor {
            tasks: BTreeMap::new(),
            task_queue: TaskIdQueue::new(READY_QUEUE_CAPACITY),
            waker_cache: BTreeMap::new(),
        }
    }

    /// Takes ownership of a task and immediately marks it ready. Ids
    /// are unique by construction, so a colliding id is ruled out
    /// rather than tolerated; a full ready queue is fatal in the
    /// kernel and ruled out the same way.
    pub fn spawn(&mut self, task: Task<F>)
        requires
            old(self).wf(),
            !old(self).task_map().contains_key(task.spec_id().0),
            old(self).queue().len() < READY_QUEUE_CAPACITY,
        ensures
            final(self).wf(),
            final(self).task_map() == old(self).task_map().insert(task.spec_id().0, task),
            final(self).queue() == old(self).queue().push(task.spec_id().0),
            final(self).cached_wakers() == old(self).cached_wakers(),
    {
        let ghost tid = task.spec_id().0;
        let task_id = task.task_id();
        let previous = self.tasks.insert(task_id.as_u64(), task);
        let _ = self.task_queue.push(task_id.as_u64());
        proof {
            assert(self.waker_cache == old(self).waker_cache);
            assert(self.cached_wakers() == old(self).cached_wakers());
            assert forall|x: u64| #[trigger] self.cached_wakers().contains(x) implies
                self.task_map().contains_key(x) by {
                assert(old(self).cached_wakers().contains(x));
                assert(old(self).task_map().contains_key(x));
            }
            assert(self.wf());
        }
    }

    /// Re-enqueues a task for polling; the wake a pending operation
    /// performs when its event arrives. Idempotent in effect: a
    /// stale or duplicate wake is skipped by the scheduler.
    pub fn wake(&mut self, id: TaskId)
        requires
            old(self).wf(),
            old(self).queue().len() < READY_QUEUE_CAPACITY,
        ensures
            final(self).wf(),
            final(self).queue() == old(self).queue().push(id.0),
            final(self).task_map() == old(self).task_map(),
            final(self).cached_wakers() == old(self).cached_wakers(),
    {
        let waker = TaskWaker::new(id);
        waker.wake_task(&mut self.task_queue);
        proof {
            assert(self.cached_wakers() == old(self).cached_wakers());
            assert(self.task_map() == old(self).task_map());
            assert(self.wf());
        }
    }

    /// Drains the ready queue, polling each drawn task with its
    /// cached (or freshly cached) waker: a completed task leaves the
    /// table together with its waker; a pending one stays in the
    /// table but out of the queue until some wake re-enqueues it; an
    /// id whose task is gone (a stale wake) is skipped, touching
    /// neither the table nor the cache. Returns with the ready queue
    /// empty, so a task no wake has named is never polled again, and
    /// control always comes back to the idle check.
    pub fn run_ready_tasks(&mut self)
        requires
            old(self).wf(),
        ensures
            final(self).wf(),
            final(self).queue().len() == 0,
            forall|id: u64| final(self).task_map().contains_key(id)
                ==> #[trigger] old(self).task_map().contains_key(id),
            forall|id: u64| old(self).task_map().contains_key(id) && !old(self).queue()
                .contains(id) ==> #[trigger] final(self).task_map().contains_key(id)
                && final(self).task_map()[id] == old(self).task_map()[id],
            // every drawn live task either completed and left the
            // table, or stayed suspended with its waker cached; with
            // wf, that waker is bound to the task's own id
            forall|id: u64| #[trigger] old(self).queue().contains(id) && old(self)
                .task_map().contains_key(id) ==> !final(self).task_map().contains_key(id)
                || final(self).cached_wakers().contains(id),
            // the cached waker of any surviving task is kept, so a
            // task keeps one stable waker identity across polls
            forall|id: u64| #[trigger] old(self).cached_wakers().contains(id)
                && final(self).task_map().contains_key(id) ==> final(self)
                .cached_wakers().contains(id),
            // no waker is cached except for a drawn id, so a pass
            // over only stale wakes leaves the cache untouched
            forall|id: u64| #[trigger] final(self).cached_wakers().contains(id)
                ==> old(self).cached_wakers().contains(id) || old(self).queue().contains(
                id),
    {
        while !self.task_queue.is_empty()
            invariant
                self.wf(),
                forall|id: u64| self.queue().contains(id) ==> old(self).queue().contains(
                    id),
                forall|id: u64| self.task_map().contains_key(id)
                    ==> #[trigger] old(self).task_map().contains_key(id),
                forall|id: u64| old(self).task_map().contains_key(id) && !old(self)
                    .queue().contains(id) ==> #[trigger] self.task_map().contains_key(id)
                    && self.task_map()[id] == old(self).task_map()[id],
                forall|id: u64| #[trigger] old(self).queue().contains(id) && old(self)
                    .task_map().contains_key(id) && !self.queue().contains(id)
                    ==> !self.task_map().contains_key(id) || self.cached_wakers()
                    .contains(id),
                forall|id: u64| #[trigger] old(self).cached_wakers().contains(id)
                    && self.task_map().contains_key(id) ==> self.cached_wakers()
                    .contains(id),
                forall|id: u64| #[trigger] self.cached_wakers().contains(id)
                    ==> old(self).cached_wakers().contains(id) || old(self).queue()
                    .contains(id),
            decreases self.queue().len(),
        {
            let ghost snap = *self;
            if let Some(task_id) = self.task_queue.pop() {
                proof {
                    assert(snap.queue()[0] == task_id);
                    assert(snap.queue().contains(task_id));
                    assert(old(self).queue().contains(task_id));
                    assert forall|id: u64| self.queue().contains(id) implies old(self)
                        .queue().contains(id) by {
                        let j = choose|j: int| 0 <= j < self.queue().len()
                            && self.queue()[j] == id;
                        assert(snap.queue()[j + 1] == id);
                        assert(snap.queue().contains(id));
                    }
                }
                match self.tasks.remove(&task_id) {
                    None => {
                        // task no longer exists: a stale wake
                        proof {
                            assert(self.tasks@ =~= snap.tasks@);
                            assert(self.waker_cache == snap.waker_cache);
                            assert forall|x: u64| #[trigger] self.cached_wakers()
                                .contains(x) implies self.task_map().contains_key(x) by {
                                assert(snap.cached_wakers().contains(x));
                                assert(snap.task_map().contains_key(x));
                            }
                            assert forall|x: u64| self.waker_cache@.dom().contains(x)
                                implies (#[trigger] self.waker_cache@[x]).task_id.0
                                == x by {
                                assert(snap.waker_cache@.dom().contains(x));
                            }
                            assert(self.wf());
                            assert(!self.task_map().contains_key(task_id));
                            lemma_drawn_bookkeeping(*old(self), snap, *self, task_id);
                        }
                    },
                    Some(mut task) => {
                        if !self.waker_cache.contains_key(&task_id) {
                            let _ = self.waker_cache.insert(task_id,
                                TaskWaker::new(TaskId(task_id)));
                        }
                        let ghost cache_mid = self.waker_cache@;
                        proof {
                            assert(self.tasks@ == snap.tasks@.remove(task_id));
                            assert(cache_mid.dom().contains(task_id));
                            assert forall|x: u64| cache_mid.dom().contains(x) implies
                                (#[trigger] cache_mid[x]).task_id.0 == x by {
                                if x != task_id {
                                    assert(snap.waker_cache@.dom().contains(x));
                                }
                            }
                            assert forall|x: u64| x != task_id implies
                                (#[trigger] cache_mid.dom().contains(x)
                                <==> snap.waker_cache@.dom().contains(x)) by {}
                        }
                        let mut context = Context { waker: TaskId(task_id) };
                        match task.poll(&mut context) {
                            Poll::Ready(_) => {
                                // task done: drop it and its cached waker
                                let _ = self.waker_cache.remove(&task_id);
                                proof {
                                    assert(self.tasks@ == snap.tasks@.remove(task_id));
                                    assert(self.waker_cache@ == cache_mid.remove(task_id));
                                    assert forall|x: u64| #[trigger] self.cached_wakers()
                                        .contains(x) implies self.task_map()
                                        .contains_key(x) by {
                                        assert(x != task_id);
                                        assert(snap.cached_wakers().contains(x));
                                        assert(snap.task_map().contains_key(x));
                                    }
                                    assert(self.wf());
                                    assert(!self.task_map().contains_key(task_id));
                                    assert forall|x: u64| x != task_id implies
                                        (#[trigger] self.cached_wakers().contains(x)
                                        <==> snap.cached_wakers().contains(x)) by {
                                        assert(self.cached_wakers().contains(x)
                                            <==> cache_mid.dom().contains(x));
                                    }
                                    lemma_drawn_bookkeeping(*old(self), snap, *self,
                                        task_id);
                                }
                            },
                            Poll::Pending => {
                                let _ = self.tasks.insert(task_id, task);
                                proof {
                                    assert(self.tasks@ == snap.tasks@.remove(
                                        task_id).insert(task_id, task));
                                    assert(self.waker_cache@ == cache_mid);
                                    assert forall|x: u64| #[trigger] self.cached_wakers()
                                        .contains(x) implies self.task_map()
                                        .contains_key(x) by {
                                        if x != task_id {
                                            assert(snap.cached_wakers().contains(x));
                                            assert(snap.task_map().contains_key(x));
                                        }
                                    }
                                    assert(self.wf());
                                    assert(self.cached_wakers().contains(task_id));
                                    lemma_drawn_bookkeeping(*old(self), snap, *self,
                                        task_id);
                                }
                            },
                        }
                    },
                }
                proof {
                    assert forall|id0: u64| self.task_map().contains_key(id0) implies
                        #[trigger] old(self).task_map().contains_key(id0) by {
                        if id0 != task_id {
                            assert(snap.task_map().contains_key(id0));
                        } else {
                            assert(snap.task_map().contains_key(id0));
                        }
                    }
                    assert forall|id0: u64| old(self).task_map().contains_key(id0)
                        && !old(self).queue().contains(id0) implies
                        #[trigger] self.task_map().contains_key(id0)
                        && self.task_map()[id0] == old(self).task_map()[id0] by {
                        assert(snap.task_map().contains_key(id0));
                        assert(snap.task_map()[id0] == old(self).task_map()[id0]);
                        assert(id0 != task_id);
                    }
                }
            }
        }
    }

    /// The waker a well-formed executor holds cached for an id.
    pub closed spec fn cached_waker(self, id: u64) -> TaskWaker {
        self.waker_cache@[id]
    }

    /// What well-formedness guarantees of the waker cache: a waker
    /// is cached only for a task the executor owns, and it is bound
    /// to that task's own id. Well-formedness itself is not open, so
    /// callers take these consequences from here.
    pub proof fn lemma_wf_cache_bound(self)
        requires
            self.wf(),
        ensures
            forall|id: u64| #[trigger] self.cached_wakers().contains(id)
                ==> self.task_map().contains_key(id),
            forall|id: u64| #[trigger] self.cached_wakers().contains(id)
                ==> self.cached_waker(id).task_id.0 == id,
    {
    }

    /// The idle check of the run loop: with the ready queue empty
    /// the kernel re-enables interrupts and halts in one indivisible
    /// step; otherwise it keeps running. The caller must take this
    /// reading with interrupts disabled for the halt decision to be
    /// race-free.
    pub fn ready_queue_is_empty(&self) -> (r: bool)
        ensures
            r == (self.queue().len() == 0),
    {
        self.task_queue.is_empty()
    }

    /// Whether a task with this id is still owned by the executor.
    pub fn contains_task(&self, id: TaskId) -> (r: bool)
        ensures
            r == self.task_map().contains_key(id.0),
    {
        self.tasks.contains_key(&id.0)
    }

    /// How many ids wait in the ready queue.
    pub fn ready_len(&self) -> (r: usize)
        ensures
            r == self.queue().len(),
    {
        self.task_queue.len()
    }

    /// Whether a waker is cached for this id.
    pub fn has_cached_waker(&self, id: TaskId) -> (r: bool)
        ensures
            r == self.cached_wakers().contains(id.0),
    {
        self.waker_cache.contains_key(&id.0)
    }
}

/// One scheduling step's bookkeeping: after an id is drawn from the
/// ready queue and handled — skipped as stale, completed and
/// removed, or left suspended with a cached waker — the drawn-task
/// and waker-cache accounting carries from the step's start to its
/// end.
proof fn lemma_drawn_bookkeeping<F: Future>(orig: Executor<F>, snap: Executor<F>,
    cur: Executor<F>, task_id: u64)
    requires
        snap.queue().len() > 0,
        snap.queue()[0] == task_id,
        forall|id: u64| snap.queue().contains(id) ==> orig.queue().contains(id),
        forall|id: u64| #[trigger] orig.queue().contains(id) && orig.task_map()
            .contains_key(id) && !snap.queue().contains(id) ==> !snap.task_map()
            .contains_key(id) || snap.cached_wakers().contains(id),
        forall|id: u64| #[trigger] orig.cached_wakers().contains(id) && snap.task_map()
            .contains_key(id) ==> snap.cached_wakers().contains(id),
        forall|id: u64| #[trigger] snap.cached_wakers().contains(id) ==> orig
            .cached_wakers().contains(id) || orig.queue().contains(id),
        cur.queue() == snap.queue().drop_first(),
        forall|id: u64| id != task_id ==> (#[trigger] cur.task_map().contains_key(id)
            <==> snap.task_map().contains_key(id)),
        forall|id: u64| id != task_id ==> (#[trigger] cur.cached_wakers().contains(id)
            <==> snap.cached_wakers().contains(id)),
        !cur.task_map().contains_key(task_id) || cur.cached_wakers().contains(task_id),
    ensures
        forall|id: u64| #[trigger] orig.queue().contains(id) && orig.task_map()
            .contains_key(id) && !cur.queue().contains(id) ==> !cur.task_map()
            .contains_key(id) || cur.cached_wakers().contains(id),
        forall|id: u64| #[trigger] orig.cached_wakers().contains(id) && cur.task_map()
            .contains_key(id) ==> cur.cached_wakers().contains(id),
        forall|id: u64| #[trigger] cur.cached_wakers().contains(id) ==> orig
            .cached_wakers().contains(id) || orig.queue().contains(id),
{
    assert forall|x: u64| #[trigger] orig.queue().contains(x) && orig.task_map()
        .contains_key(x) && !cur.queue().contains(x) implies !cur.task_map()
        .contains_key(x) || cur.cached_wakers().contains(x) by {
        if x != task_id {
            if snap.queue().contains(x) {
                let j = choose|j: int| 0 <= j < snap.queue().len() && snap.queue()[j]
                    == x;
                assert(j != 0);
                assert(cur.queue()[j - 1] == x);
                assert(cur.queue().contains(x));
            } else {
                assert(!snap.task_map().contains_key(x) || snap.cached_wakers()
                    .contains(x));
            }
        }
    }
    assert forall|x: u64| #[trigger] orig.cached_wakers().contains(x) && cur.task_map()
        .contains_key(x) implies cur.cached_wakers().contains(x) by {
        if x != task_id {
            assert(snap.task_map().contains_key(x));
            assert(snap.cached_wakers().contains(x));
        }
    }
    assert forall|x: u64| #[trigger] cur.cached_wakers().contains(x) implies orig
        .cached_wakers().contains(x) || orig.queue().contains(x) by {
        if x == task_id {
            assert(snap.queue().contains(task_id));
            assert(orig.queue().contains(task_id));
        } else {
            assert(snap.cached_wakers().contains(x));
        }
    }
}

} // verus!
