//! The scancode queue and its wake-up bridge: the keyboard interrupt
//! handler delivers bytes without blocking or allocating, and a
//! single-slot waker cell carries the "data arrived" notification to
//! the consuming task. Delivery signals the waker only after the
//! byte is in the queue, and the consumer re-checks the queue after
//! registering its waker, which together close the lost-wake-up
//! race.

use vstd::prelude::*;

verus! {

use crate::queue::{ByteQueue, byte_queue_contents, byte_queue_capacity};
use crate::task::{Context, Poll, Stream, TaskId};

/// How many scancodes the queue buffers before dropping input.
pub const SCANCODE_QUEUE_CAPACITY: usize = 100;

/// The abstract state of the scancode bridge: the buffered bytes,
/// the queue's capacity, and the waker registered for the consumer,
/// if any.
pub struct ScancodeModel {
    pub bytes: Seq<u8>,
    pub capacity: nat,
    pub waker: Option<u64>,
}

/// One producer step on the model: with room, the byte joins the
/// queue and the registered waker (if any) is taken to be signalled;
/// with a full queue the byte is dropped and nothing is signalled.
/// The result carries the new state, the waker to signal, and
/// whether the byte was delivered.
pub open spec fn spec_add_scancode(m: ScancodeModel, b: u8) -> (ScancodeModel, Option<u64>, bool) {
    if m.bytes.len() < m.capacity {
        (ScancodeModel { bytes: m.bytes.push(b), capacity: m.capacity, waker: None }, m.waker,
            true)
    } else {
        (m, None, false)
    }
}

/// One consumer step on the model: a non-empty queue yields its
/// oldest byte at once, the waker untouched; an empty queue leaves
/// the consumer suspended with its waker registered.
pub open spec fn spec_poll_next(m: ScancodeModel, task: u64) -> (ScancodeModel, Poll<
    Option<u8>,
>) {
    if m.bytes.len() > 0 {
        (ScancodeModel { bytes: m.bytes.drop_first(), capacity: m.capacity, waker: m.waker },
            Poll::Ready(Some(m.bytes[0])))
    } else {
        (ScancodeModel { bytes: m.bytes, capacity: m.capacity, waker: Some(task) },
            Poll::Pending)
    }
}

/// What the producer reports back: whether the byte entered the
/// queue, and which task to wake now that it is visible there.
pub struct AddOutcome {
    pub delivered: bool,
    pub wake: Option<TaskId>,
}

/// The scancode bridge: the bounded byte queue and the single-slot
/// waker cell, owned together.
pub struct ScancodeStream {
    queue: ByteQueue,
    waker: Option<u64>,
}

impl View for ScancodeStream {
    type V = ScancodeModel;

    closed spec fn view(&self) -> ScancodeModel {
        ScancodeModel {
            bytes: byte_queue_contents(self.queue),
            capacity: byte_queue_capacity(self.queue),
            waker: self.waker,
        }
    }
}

impl ScancodeStream {
    /// Creates the bridge with its fixed buffer. In the running
    /// kernel the queue is a process-wide one-time initialization;
    /// whoever owns this value holds that single instance.
    pub fn new() -> (r: ScancodeStream)
        ensures
            r@.bytes == Seq::<u8>::empty(),
            r@.capacity == SCANCODE_QUEUE_CAPACITY,
            r@.waker is None,
    {
        ScancodeStream { queue: ByteQueue::new(SCANCODE_QUEUE_CAPACITY), waker: None }
    }

    /// Called by the keyboard interrupt handler; must not block and
    /// must not allocate. Pushes the byte, dropping it when the
    /// queue is full, and only after a successful push hands back
    /// the registered waker to signal. The caller reports a dropped
    /// byte and performs the wake; neither involves this structure
    /// again.
    pub fn add_scancode(&mut self, scancode: u8) -> (r: AddOutcome)
        ensures
            ({
                let (m, wake, delivered) = spec_add_scancode(old(self)@, scancode);
                &&& final(self)@ == m
                &&& r.delivered == delivered
                &&& r.wake == match wake {
                    Some(id) => Some(TaskId(id)),
                    None => None::<TaskId>,
                }
            }),
    {
        match self.queue.push(scancode) {
            Ok(_) => {
                let woken = match self.waker {
                    Some(id) => Some(TaskId(id)),
                    None => None,
                };
                self.waker = None;
                AddOutcome { delivered: true, wake: woken }
            },
            Err(_) => AddOutcome { delivered: false, wake: None },
        }
    }

    /// The consumer's poll: try the queue, and if it is empty,
    /// register the waker and try once more before suspending. The
    /// second try is what closes the race with a delivery that lands
    /// between the first try and the registration.
    pub fn poll_scancode(&mut self, cx: &mut Context) -> (r: Poll<Option<u8>>)
        ensures
            ({
                let (m, p) = spec_poll_next(old(self)@, old(cx).waker.0);
                final(self)@ == m && r == p
            }),
            *final(cx) == *old(cx),
    {
        // fast path
        if let Some(scancode) = self.queue.pop() {
            return Poll::Ready(Some(scancode));
        }
        // a delivery could land here; register interest first, then
        // look again
        self.waker = Some(cx.waker.as_u64());
        match self.queue.pop() {
            Some(scancode) => {
                self.waker = None;
                Poll::Ready(Some(scancode))
            },
            None => Poll::Pending,
        }
    }

    /// How many scancodes are buffered right now.
    pub fn buffered(&self) -> (r: usize)
        ensures
            r == self@.bytes.len(),
    {
        self.queue.len()
    }
}

impl Stream for ScancodeStream {
    type Item = u8;

    fn poll_next(&mut self, cx: &mut Context) -> Poll<Option<u8>> {
        self.poll_scancode(cx)
    }
}

/// The queue after a whole burst of deliveries, one byte at a time.
pub open spec fn spec_add_all(m: ScancodeModel, bytes: Seq<u8>) -> ScancodeModel
    decreases bytes.len(),
{
    if bytes.len() == 0 {
        m
    } else {
        spec_add_all(spec_add_scancode(m, bytes[0]).0, bytes.drop_first())
    }
}

/// Delivery preserves arrival order and never corrupts what is
/// already buffered: a burst appends, in order, exactly as many of
/// its bytes as there is room for, and drops the rest.
pub proof fn lemma_fifo_burst(m: ScancodeModel, bytes: Seq<u8>)
    ensures
        ({
            let room = if m.capacity >= m.bytes.len() {
                m.capacity - m.bytes.len()
            } else {
                0
            };
            let kept = if bytes.len() <= room {
                bytes.len() as int
            } else {
                room
            };
            let after = spec_add_all(m, bytes);
            &&& after.bytes == m.bytes + bytes.take(kept)
            &&& after.capacity == m.capacity
        }),
    decreases bytes.len(),
{
    let room: int = if m.capacity >= m.bytes.len() {
        m.capacity - m.bytes.len()
    } else {
        0
    };
    let kept: int = if bytes.len() <= room {
        bytes.len() as int
    } else {
        room
    };
    if bytes.len() == 0 {
        assert(m.bytes + bytes.take(0) =~= m.bytes);
    } else {
        let (m1, _, delivered) = spec_add_scancode(m, bytes[0]);
        lemma_fifo_burst(m1, bytes.drop_first());
        let room1: int = if m1.capacity >= m1.bytes.len() {
            m1.capacity - m1.bytes.len()
        } else {
            0
        };
        let kept1: int = if bytes.drop_first().len() <= room1 {
            bytes.drop_first().len() as int
        } else {
            room1
        };
        if delivered {
            assert(m1.bytes + bytes.drop_first().take(kept1) =~= m.bytes + bytes.take(kept));
        } else {
            assert(m1.bytes + bytes.drop_first().take(kept1) =~= m.bytes + bytes.take(kept));
        }
    }
}

/// A consumer polling a non-empty queue gets the oldest byte at
/// once, without touching the waker.
pub proof fn lemma_poll_ready_when_nonempty(m: ScancodeModel, task: u64)
    requires
        m.bytes.len() > 0,
    ensures
        spec_poll_next(m, task).1 == Poll::Ready(Some(m.bytes[0])),
        spec_poll_next(m, task).0.waker == m.waker,
{
}

/// No wake-up is lost: a consumer that suspends leaves its waker
/// registered, the next successful delivery signals exactly that
/// waker, and the woken consumer's next poll returns the delivered
/// byte. This holds wherever the delivery lands relative to the
/// consumer's two queue checks, because suspension itself guarantees
/// the registration.
pub proof fn lemma_no_lost_wakeup(m: ScancodeModel, task: u64, b: u8)
    requires
        m.capacity > 0,
    ensures
        ({
            let (m1, p1) = spec_poll_next(m, task);
            p1 is Pending ==> {
                let (m2, wake, delivered) = spec_add_scancode(m1, b);
                &&& m1.waker == Some(task)
                &&& delivered
                &&& wake == Some(task)
                &&& spec_poll_next(m2, task).1 == Poll::Ready(Some(b))
            }
        }),
{
}

/// The consumer's state after draining `k` buffered bytes one poll
/// at a time, together with the bytes it saw, in order.
pub open spec fn spec_poll_all(m: ScancodeModel, task: u64, k: int) -> (ScancodeModel, Seq<
    u8,
>)
    decreases k when k >= 0
{
    if k <= 0 {
        (m, Seq::empty())
    } else {
        let (m1, p) = spec_poll_next(m, task);
        match p {
            Poll::Ready(Some(b)) => {
                let (m2, rest) = spec_poll_all(m1, task, k - 1);
                (m2, seq![b] + rest)
            },
            _ => (m1, Seq::empty()),
        }
    }
}

/// Draining never reorders: polling `k` times on a queue holding at
/// least `k` bytes yields exactly its oldest `k` bytes, oldest
/// first, and leaves the rest buffered.
pub proof fn lemma_poll_in_order(m: ScancodeModel, task: u64, k: int)
    requires
        0 <= k <= m.bytes.len(),
    ensures
        spec_poll_all(m, task, k).1 == m.bytes.take(k),
        spec_poll_all(m, task, k).0.bytes == m.bytes.skip(k),
        spec_poll_all(m, task, k).0.capacity == m.capacity,
        spec_poll_all(m, task, k).0.waker == m.waker,
    decreases k,
{
    if k <= 0 {
        assert(m.bytes.take(0) =~= Seq::<u8>::empty());
        assert(m.bytes.skip(0) =~= m.bytes);
    } else {
        let (m1, p) = spec_poll_next(m, task);
        lemma_poll_in_order(m1, task, k - 1);
        assert(seq![m.bytes[0]] + m1.bytes.take(k - 1) =~= m.bytes.take(k));
        assert(m1.bytes.skip(k - 1) =~= m.bytes.skip(k));
    }
}

/// The scancode queue is first-in first-out end to end: delivering a
/// burst that fits into an empty queue and then polling as many
/// times hands the consumer exactly that burst, in arrival order.
pub proof fn lemma_fifo_round_trip(m: ScancodeModel, task: u64, bytes: Seq<u8>)
    requires
        m.bytes.len() == 0,
        bytes.len() <= m.capacity,
    ensures
        spec_poll_all(spec_add_all(m, bytes), task, bytes.len() as int).1 == bytes,
{
    lemma_fifo_burst(m, bytes);
    let after = spec_add_all(m, bytes);
    assert(after.bytes =~= bytes);
    lemma_poll_in_order(after, task, bytes.len() as int);
    assert(after.bytes.take(bytes.len() as int) =~= bytes);
}

} // verus!
