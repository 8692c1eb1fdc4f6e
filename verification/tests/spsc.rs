use queue_experiments::mutex_queue::{Queue, SendError};
use queue_experiments::spsc_lock::{
    channel_capacity, inc_idx, receiver_poll_recv, sender_do_send, sender_poll_send,
};
use queue_experiments::task::Poll;
use std::task::{Context, Waker};

/// Both ends of a channel, driven by hand on one thread.
struct Ends<T> {
    queue: Queue<T>,
    capacity: usize,
    tx_idx: usize,
    rx_idx: usize,
}

impl<T> Ends<T> {
    fn new(requested: usize) -> Self {
        let capacity = channel_capacity(requested).expect("capacity is too large");
        Ends { queue: Queue::new(capacity), capacity, tx_idx: 0, rx_idx: 0 }
    }

    fn send(&mut self, val: T) -> Poll<Result<(), SendError>> {
        let waker = Waker::noop();
        let mut cx = Context::from_waker(&waker);
        let mut slot = Some(val);
        sender_poll_send(&mut self.queue, &mut cx, &mut self.tx_idx, self.capacity, &mut slot)
    }

    fn recv(&mut self) -> Poll<Option<T>> {
        let waker = Waker::noop();
        let mut cx = Context::from_waker(&waker);
        receiver_poll_recv(&mut self.queue, &mut cx, &mut self.rx_idx, self.capacity)
    }
}

#[test]
fn basic() {
    let mut ends = Ends::new(1);
    assert_eq!(ends.send(1_u32), Poll::Ready(Ok(())));
    assert_eq!(ends.recv(), Poll::Ready(Some(1)));
}

#[test]
fn send_err_after_rx_shutdown() {
    let mut ends = Ends::new(1);
    ends.queue.rx_shutdown();
    assert_eq!(ends.send(1_u32), Poll::Ready(Err(SendError::Closed)));
}

#[test]
fn send_recv_with_buffer() {
    let mut ends = Ends::new(5);
    assert_eq!(ends.capacity, 8);
    assert_eq!(ends.send(1_u32), Poll::Ready(Ok(())));
    assert_eq!(ends.send(2), Poll::Ready(Ok(())));
    ends.queue.tx_shutdown();
    assert_eq!(ends.recv(), Poll::Ready(Some(1)));
    assert_eq!(ends.recv(), Poll::Ready(Some(2)));
    assert_eq!(ends.recv(), Poll::Ready(None));
}

#[test]
fn send_recv_at_capacity() {
    let mut ends = Ends::new(2);
    assert_eq!(ends.send(1_u32), Poll::Ready(Ok(())));
    assert_eq!(ends.send(2), Poll::Ready(Ok(())));
    // full: the third value waits for room
    assert_eq!(ends.send(3), Poll::Pending);
    assert_eq!(ends.recv(), Poll::Ready(Some(1)));
    assert_eq!(ends.send(3), Poll::Ready(Ok(())));
    assert_eq!(ends.recv(), Poll::Ready(Some(2)));
    assert_eq!(ends.send(4), Poll::Ready(Ok(())));
    ends.queue.tx_shutdown();
    assert_eq!(ends.recv(), Poll::Ready(Some(3)));
    assert_eq!(ends.recv(), Poll::Ready(Some(4)));
    assert_eq!(ends.recv(), Poll::Ready(None));
}

#[test]
fn spsc_pending_send_keeps_value() {
    let waker = Waker::noop();
    let mut cx = Context::from_waker(&waker);
    let mut queue: Queue<u32> = Queue::new(1);
    let mut tx_idx = 0;
    let mut val = Some(1);
    assert_eq!(sender_poll_send(&mut queue, &mut cx, &mut tx_idx, 1, &mut val), Poll::Ready(Ok(())));
    assert_eq!(val, None);
    assert_eq!(tx_idx, 0);
    let mut val = Some(2);
    assert_eq!(sender_poll_send(&mut queue, &mut cx, &mut tx_idx, 1, &mut val), Poll::Pending);
    assert_eq!(val, Some(2));
    queue.rx_shutdown();
    assert_eq!(
        sender_poll_send(&mut queue, &mut cx, &mut tx_idx, 1, &mut val),
        Poll::Ready(Err(SendError::Closed))
    );
    assert_eq!(val, Some(2));
}

#[test]
fn spsc_sender_do_send_advances() {
    let waker = Waker::noop();
    let mut cx = Context::from_waker(&waker);
    let mut queue: Queue<u32> = Queue::new(4);
    let mut tx_idx = 0;
    for v in 10..14 {
        tx_idx = sender_do_send(&mut queue, tx_idx, 4, v);
    }
    assert_eq!(tx_idx, 0);
    let mut rx_idx = 0;
    for v in 10..14 {
        assert_eq!(receiver_poll_recv(&mut queue, &mut cx, &mut rx_idx, 4), Poll::Ready(Some(v)));
    }
    assert_eq!(rx_idx, 0);
    assert_eq!(receiver_poll_recv(&mut queue, &mut cx, &mut rx_idx, 4), Poll::Pending);
    assert_eq!(rx_idx, 0);
}

#[test]
fn spsc_recv_none_advances_index() {
    let waker = Waker::noop();
    let mut cx = Context::from_waker(&waker);
    let mut queue: Queue<u32> = Queue::new(2);
    queue.tx_shutdown();
    let mut rx_idx = 1;
    assert_eq!(receiver_poll_recv(&mut queue, &mut cx, &mut rx_idx, 2), Poll::Ready(None));
    assert_eq!(rx_idx, 0);
}

#[test]
fn spsc_many_rounds_in_order() {
    let mut ends = Ends::new(3);
    assert_eq!(ends.capacity, 4);
    let mut next_recv = 0_u32;
    for v in 0..50_u32 {
        while ends.send(v) == Poll::Pending {
            assert_eq!(ends.recv(), Poll::Ready(Some(next_recv)));
            next_recv += 1;
        }
    }
    ends.queue.tx_shutdown();
    while let Poll::Ready(Some(v)) = ends.recv() {
        assert_eq!(v, next_recv);
        next_recv += 1;
    }
    assert_eq!(next_recv, 50);
}

#[test]
fn spsc_inc_idx_wraps() {
    assert_eq!(inc_idx(0, 1), 0);
    assert_eq!(inc_idx(0, 4), 1);
    assert_eq!(inc_idx(2, 4), 3);
    assert_eq!(inc_idx(3, 4), 0);
    assert_eq!(inc_idx(127, 128), 0);
}

#[test]
fn spsc_channel_capacity_rounds_up() {
    assert_eq!(channel_capacity(1), Some(1));
    assert_eq!(channel_capacity(2), Some(2));
    assert_eq!(channel_capacity(3), Some(4));
    assert_eq!(channel_capacity(5), Some(8));
    assert_eq!(channel_capacity(128), Some(128));
    assert_eq!(channel_capacity(129), Some(256));
    assert_eq!(channel_capacity(0), Some(1));
    assert_eq!(channel_capacity(usize::MAX / 2 + 1), Some(usize::MAX / 2 + 1));
    assert_eq!(channel_capacity(usize::MAX / 2 + 2), None);
    assert_eq!(channel_capacity(usize::MAX), None);
}

#[test]
fn spsc_end_of_stream_is_final() {
    let mut ends = Ends::new(2);
    assert_eq!(ends.send(1_u32), Poll::Ready(Ok(())));
    ends.queue.tx_shutdown();
    assert_eq!(ends.recv(), Poll::Ready(Some(1)));
    for _ in 0..5 {
        assert_eq!(ends.recv(), Poll::Ready(None));
        assert_eq!(ends.send(9), Poll::Ready(Err(SendError::Closed)));
    }
}
