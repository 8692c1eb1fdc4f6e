use queue_experiments::mutex_queue::{Queue, SendError};
use queue_experiments::task::Poll;
use std::sync::atomic::{AtomicUsize, Ordering};
use std::sync::Arc;
use std::task::{Context, Wake, Waker};

struct CountingWaker(AtomicUsize);

impl Wake for CountingWaker {
    fn wake(self: Arc<Self>) {
        self.0.fetch_add(1, Ordering::SeqCst);
    }
}

fn counting_waker() -> (Arc<CountingWaker>, Waker) {
    let counter = Arc::new(CountingWaker(AtomicUsize::new(0)));
    let waker = Waker::from(counter.clone());
    (counter, waker)
}

fn wakes(counter: &Arc<CountingWaker>) -> usize {
    counter.0.load(Ordering::SeqCst)
}

#[test]
fn queue_new_slots_are_free() {
    let mut q: Queue<u32> = Queue::new(4);
    let waker = Waker::noop();
    let mut cx = Context::from_waker(&waker);
    for i in 0..4 {
        assert_eq!(q.poll_acquire_tx_slot(&mut cx, i), Poll::Ready(Ok(())));
        assert_eq!(q.poll_recv(&mut cx, i), Poll::Pending);
    }
}

#[test]
fn queue_send_then_recv_same_slot() {
    let mut q: Queue<u32> = Queue::new(2);
    let waker = Waker::noop();
    let mut cx = Context::from_waker(&waker);
    q.do_send(1, 7);
    assert_eq!(q.poll_acquire_tx_slot(&mut cx, 1), Poll::Pending);
    assert_eq!(q.poll_recv(&mut cx, 0), Poll::Pending);
    assert_eq!(q.poll_recv(&mut cx, 1), Poll::Ready(Some(7)));
    assert_eq!(q.poll_recv(&mut cx, 1), Poll::Pending);
    assert_eq!(q.poll_acquire_tx_slot(&mut cx, 1), Poll::Ready(Ok(())));
}

#[test]
fn queue_do_recv_takes_value() {
    let mut q: Queue<String> = Queue::new(1);
    q.do_send(0, String::from("hello"));
    assert_eq!(q.do_recv(0), "hello");
    let waker = Waker::noop();
    let mut cx = Context::from_waker(&waker);
    assert_eq!(q.poll_recv(&mut cx, 0), Poll::Pending);
}

#[test]
fn queue_send_wakes_waiting_receiver() {
    let mut q: Queue<u32> = Queue::new(1);
    let (counter, waker) = counting_waker();
    let mut cx = Context::from_waker(&waker);
    assert_eq!(q.poll_recv(&mut cx, 0), Poll::Pending);
    assert_eq!(wakes(&counter), 0);
    q.do_send(0, 5);
    assert_eq!(wakes(&counter), 1);
    // the waker was consumed: a second send does not wake again
    assert_eq!(q.do_recv(0), 5);
    q.do_send(0, 6);
    assert_eq!(wakes(&counter), 1);
}

#[test]
fn queue_recv_wakes_waiting_sender() {
    let mut q: Queue<u32> = Queue::new(1);
    let (counter, waker) = counting_waker();
    let mut cx = Context::from_waker(&waker);
    q.do_send(0, 1);
    assert_eq!(q.poll_acquire_tx_slot(&mut cx, 0), Poll::Pending);
    assert_eq!(wakes(&counter), 0);
    assert_eq!(q.poll_recv(&mut cx, 0), Poll::Ready(Some(1)));
    assert_eq!(wakes(&counter), 1);
}

#[test]
fn queue_rx_shutdown_refuses_sends() {
    let mut q: Queue<u32> = Queue::new(2);
    let (counter, waker) = counting_waker();
    let mut cx = Context::from_waker(&waker);
    q.do_send(0, 1);
    q.do_send(1, 2);
    assert_eq!(q.poll_acquire_tx_slot(&mut cx, 0), Poll::Pending);
    q.rx_shutdown();
    assert_eq!(wakes(&counter), 1);
    assert_eq!(
        q.poll_acquire_tx_slot(&mut cx, 0),
        Poll::Ready(Err(SendError::Closed))
    );
    // shutting down again wakes nobody
    q.rx_shutdown();
    q.tx_shutdown();
    assert_eq!(wakes(&counter), 1);
}

#[test]
fn queue_send_after_shutdown_is_dropped() {
    let mut q: Queue<u32> = Queue::new(1);
    let waker = Waker::noop();
    let mut cx = Context::from_waker(&waker);
    q.rx_shutdown();
    q.do_send(0, 9);
    assert_eq!(q.poll_recv(&mut cx, 0), Poll::Ready(None));
}

#[test]
fn queue_tx_shutdown_drains_then_ends() {
    let mut q: Queue<u32> = Queue::new(2);
    let (counter, waker) = counting_waker();
    let mut cx = Context::from_waker(&waker);
    q.do_send(0, 1);
    q.tx_shutdown();
    assert_eq!(q.poll_recv(&mut cx, 0), Poll::Ready(Some(1)));
    assert_eq!(q.poll_recv(&mut cx, 1), Poll::Ready(None));
    assert_eq!(wakes(&counter), 0);
}

#[test]
fn queue_tx_shutdown_wakes_waiting_receiver() {
    let mut q: Queue<u32> = Queue::new(1);
    let (counter, waker) = counting_waker();
    let mut cx = Context::from_waker(&waker);
    assert_eq!(q.poll_recv(&mut cx, 0), Poll::Pending);
    q.tx_shutdown();
    assert_eq!(wakes(&counter), 1);
    assert_eq!(q.poll_recv(&mut cx, 0), Poll::Ready(None));
}

#[test]
fn queue_send_error_closed_is_its_only_value() {
    assert_eq!(SendError::Closed, SendError::Closed);
    assert_eq!(format!("{:?}", SendError::Closed), "Closed");
}

#[test]
fn queue_keeps_slots_and_stays_shut() {
    let mut q: Queue<u32> = Queue::new(4);
    let waker = Waker::noop();
    let mut cx = Context::from_waker(&waker);
    assert_eq!(q.capacity(), 4);
    q.do_send(2, 3);
    q.tx_shutdown();
    assert_eq!(q.capacity(), 4);
    assert_eq!(q.poll_recv(&mut cx, 2), Poll::Ready(Some(3)));
    q.do_send(3, 4);
    q.rx_shutdown();
    assert_eq!(q.capacity(), 4);
    assert_eq!(q.poll_acquire_tx_slot(&mut cx, 0), Poll::Ready(Err(SendError::Closed)));
    assert_eq!(q.poll_recv(&mut cx, 3), Poll::Ready(None));
}

#[test]
fn queue_repoll_replaces_receiver_waker() {
    let mut q: Queue<u32> = Queue::new(1);
    let (first, first_waker) = counting_waker();
    let (second, second_waker) = counting_waker();
    assert_eq!(q.poll_recv(&mut Context::from_waker(&first_waker), 0), Poll::Pending);
    assert_eq!(q.poll_recv(&mut Context::from_waker(&second_waker), 0), Poll::Pending);
    q.do_send(0, 1);
    assert_eq!(wakes(&first), 0);
    assert_eq!(wakes(&second), 1);
}

#[test]
fn queue_repoll_replaces_sender_waker() {
    let mut q: Queue<u32> = Queue::new(1);
    let (first, first_waker) = counting_waker();
    let (second, second_waker) = counting_waker();
    q.do_send(0, 1);
    assert_eq!(q.poll_acquire_tx_slot(&mut Context::from_waker(&first_waker), 0), Poll::Pending);
    assert_eq!(q.poll_acquire_tx_slot(&mut Context::from_waker(&second_waker), 0), Poll::Pending);
    assert_eq!(q.do_recv(0), 1);
    assert_eq!(wakes(&first), 0);
    assert_eq!(wakes(&second), 1);
}

#[test]
fn queue_each_side_keeps_the_other_waker() {
    let mut q: Queue<u32> = Queue::new(2);
    let (tx_counter, tx_waker) = counting_waker();
    let (rx_counter, rx_waker) = counting_waker();
    q.do_send(0, 1);
    assert_eq!(q.poll_acquire_tx_slot(&mut Context::from_waker(&tx_waker), 0), Poll::Pending);
    assert_eq!(q.poll_recv(&mut Context::from_waker(&rx_waker), 1), Poll::Pending);
    assert_eq!(q.do_recv(0), 1);
    assert_eq!(wakes(&tx_counter), 1);
    assert_eq!(wakes(&rx_counter), 0);
    q.do_send(1, 2);
    assert_eq!(wakes(&tx_counter), 1);
    assert_eq!(wakes(&rx_counter), 1);
}

#[test]
fn queue_second_shutdown_wakes_nobody() {
    let mut q: Queue<u32> = Queue::new(1);
    let (rx_counter, rx_waker) = counting_waker();
    q.tx_shutdown();
    assert_eq!(q.poll_recv(&mut Context::from_waker(&rx_waker), 0), Poll::Ready(None));
    q.tx_shutdown();
    q.rx_shutdown();
    assert_eq!(wakes(&rx_counter), 0);
}
