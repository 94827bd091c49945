use my_os::scancode::{ScancodeStream, SCANCODE_QUEUE_CAPACITY};
use my_os::task::{Context, Poll, TaskId};

fn cx(id: u64) -> Context {
    Context { waker: TaskId(id) }
}

#[test]
fn scancodes_pop_in_fifo_order() {
    let mut s = ScancodeStream::new();
    let bytes: Vec<u8> = (0..60).collect();
    for b in &bytes {
        let outcome = s.add_scancode(*b);
        assert!(outcome.delivered);
    }
    assert_eq!(s.buffered(), 60);
    let mut c = cx(1);
    for b in &bytes {
        assert_eq!(s.poll_scancode(&mut c), Poll::Ready(Some(*b)));
    }
    assert_eq!(s.buffered(), 0);
}

#[test]
fn overflow_drops_excess_without_corrupting_queue() {
    let mut s = ScancodeStream::new();
    for b in 0..SCANCODE_QUEUE_CAPACITY {
        assert!(s.add_scancode(b as u8).delivered);
    }
    // the queue is full: further bytes are dropped, not queued
    for b in 0..3 {
        let outcome = s.add_scancode(0xf0 + b);
        assert!(!outcome.delivered);
        assert!(outcome.wake.is_none());
    }
    assert_eq!(s.buffered(), SCANCODE_QUEUE_CAPACITY);
    // everything queued before the overflow survives, in order
    let mut c = cx(1);
    for b in 0..SCANCODE_QUEUE_CAPACITY {
        assert_eq!(s.poll_scancode(&mut c), Poll::Ready(Some(b as u8)));
    }
    assert_eq!(s.poll_scancode(&mut c), Poll::Pending);
}

#[test]
fn push_before_poll_is_observed() {
    let mut s = ScancodeStream::new();
    assert!(s.add_scancode(0x2a).delivered);
    let mut c = cx(5);
    assert_eq!(s.poll_scancode(&mut c), Poll::Ready(Some(0x2a)));
}

#[test]
fn wakeup_after_pending_is_not_lost() {
    let mut s = ScancodeStream::new();
    let mut c = cx(7);
    // consumer suspends: its waker is registered
    assert_eq!(s.poll_scancode(&mut c), Poll::Pending);
    // producer delivers: the registered waker comes back to signal
    let outcome = s.add_scancode(0x1c);
    assert!(outcome.delivered);
    assert_eq!(outcome.wake, Some(TaskId(7)));
    // the woken consumer observes the data on its next poll
    assert_eq!(s.poll_scancode(&mut c), Poll::Ready(Some(0x1c)));
}

#[test]
fn waker_fires_once_per_registration() {
    let mut s = ScancodeStream::new();
    let mut c = cx(9);
    assert_eq!(s.poll_scancode(&mut c), Poll::Pending);
    // the first delivery takes the waker; a second delivery before
    // the consumer re-registers signals nobody
    assert_eq!(s.add_scancode(0x01).wake, Some(TaskId(9)));
    assert_eq!(s.add_scancode(0x02).wake, None);
    assert_eq!(s.poll_scancode(&mut c), Poll::Ready(Some(0x01)));
    assert_eq!(s.poll_scancode(&mut c), Poll::Ready(Some(0x02)));
}

#[test]
fn fast_path_leaves_registered_waker_alone() {
    let mut s = ScancodeStream::new();
    let mut c = cx(3);
    assert_eq!(s.poll_scancode(&mut c), Poll::Pending);
    let first = s.add_scancode(0x10);
    assert_eq!(first.wake, Some(TaskId(3)));
    // data present: polling takes the fast path and needs no waker
    assert_eq!(s.poll_scancode(&mut c), Poll::Ready(Some(0x10)));
    // nothing registered now, so a delivery wakes nobody
    assert_eq!(s.add_scancode(0x11).wake, None);
}
