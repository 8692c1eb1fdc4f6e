//! A fixed ring of slots shared by one producer and one consumer.
//!
//! Whoever manipulates a `Queue` is assumed to hold exclusive access to it:
//! the producer writes slot after slot, the consumer takes slot after slot,
//! and each side parks its waker here when it has to wait for the other.

use crate::task::{clone_waker, context_waker, wake_waker, Poll};
use std::task::{Context, Waker};
use vstd::prelude::*;

verus! {

/// A number with exactly one bit set.
pub open spec fn is_power_of_two(n: usize) -> bool {
    n != 0 && n & ((n - 1) as usize) == 0
}

/// The error of a send over a queue that has been shut down.
#[derive(Debug, PartialEq, Eq, Clone, Copy)]
pub enum SendError {
    Closed,
}

/// The count after `count` by one, wrapping around at `u64::MAX`.
pub open spec fn next_count(count: u64) -> u64 {
    if count == u64::MAX {
        0
    } else {
        (count + 1) as u64
    }
}

/// A wake count after a wake of the registered waker when `waiting`: one
/// more if a waker was registered, else the same.
pub open spec fn wakes_after(waiting: bool, wakes: u64) -> u64 {
    if waiting {
        next_count(wakes)
    } else {
        wakes
    }
}

fn count_one_more(count: u64) -> (next: u64)
    ensures
        next == next_count(count),
{
    if count == u64::MAX {
        0
    } else {
        count + 1
    }
}

/// A waker that may or may not be registered, with the number of wakers
/// registered here and the number of them that were woken.
#[derive(Debug)]
struct MaybeWaker {
    waker: Option<Waker>,
    registrations: u64,
    wakes: u64,
}

impl MaybeWaker {
    spec fn is_registered(&self) -> bool {
        self.waker is Some
    }

    fn new(waker: Option<Waker>) -> (w: Self)
        ensures
            w.waker == waker,
            w.registrations == 0,
            w.wakes == 0,
    {
        MaybeWaker { waker, registrations: 0, wakes: 0 }
    }

    /// Hands the registered waker, if any, to `Waker::wake`, counting the
    /// wake, and forgets it.
    fn wake(&mut self)
        ensures
            final(self).waker is None,
            final(self).registrations == old(self).registrations,
            final(self).wakes == wakes_after(old(self).waker is Some, old(self).wakes),
    {
        if let Some(waker) = self.waker.take() {
            wake_waker(waker);
            self.wakes = count_one_more(self.wakes);
        }
    }

    #[allow(dead_code)]
    fn register(&mut self, waker: Waker)
        ensures
            final(self).waker == Some(waker),
            final(self).registrations == next_count(old(self).registrations),
            final(self).wakes == old(self).wakes,
    {
        self.waker = Some(waker);
        self.registrations = count_one_more(self.registrations);
    }

    /// Registers a copy of `waker_ref`, in place of any waker registered
    /// before, counting the registration.
    fn register_by_ref(&mut self, waker_ref: &Waker)
        ensures
            final(self).waker is Some,
            final(self).registrations == next_count(old(self).registrations),
            final(self).wakes == old(self).wakes,
    {
        self.waker = Some(clone_waker(waker_ref));
        self.registrations = count_one_more(self.registrations);
    }
}

/// The slots of a queue, whether it has been shut down, and the wakers of a
/// producer and of a consumer that wait on it.
#[derive(Debug)]
pub struct Queue<T> {
    is_shutdown: bool,
    queue: Vec<Option<T>>,
    tx_waker: MaybeWaker,
    rx_waker: MaybeWaker,
}

/// What a producer learns when it asks for the slot at `tx_idx`.
pub open spec fn acquire_outcome<T>(closed: bool, slots: Seq<Option<T>>, tx_idx: int) -> Poll<
    Result<(), SendError>,
> {
    if closed {
        Poll::Ready(Err(SendError::Closed))
    } else if slots[tx_idx] is None {
        Poll::Ready(Ok(()))
    } else {
        Poll::Pending
    }
}

/// What a consumer learns when it polls the slot at `rx_idx`.
pub open spec fn recv_outcome<T>(closed: bool, slots: Seq<Option<T>>, rx_idx: int) -> Poll<
    Option<T>,
> {
    match slots[rx_idx] {
        Some(v) => Poll::Ready(Some(v)),
        None => if closed {
            Poll::Ready(None)
        } else {
            Poll::Pending
        },
    }
}

/// A producer's request for the slot at `tx_idx` took `before` to `after`
/// and answered `res`: a ready answer changes nothing; a pending one only
/// registers the caller's waker (one more registration), in place of any
/// registered before; no waker is woken.
pub open spec fn acquire_step<T>(
    before: Queue<T>,
    after: Queue<T>,
    tx_idx: int,
    res: Poll<Result<(), SendError>>,
) -> bool {
    &&& res == acquire_outcome(before.closed(), before.slots(), tx_idx)
    &&& after.slots() == before.slots()
    &&& after.closed() == before.closed()
    &&& after.rx_waiting() == before.rx_waiting()
    &&& after.tx_waiting() == (before.tx_waiting() || res is Pending)
    &&& after.rx_waker() == before.rx_waker()
    &&& after.rx_registrations() == before.rx_registrations()
    &&& after.rx_wakes() == before.rx_wakes()
    &&& after.tx_wakes() == before.tx_wakes()
    &&& after.tx_registrations() == if res is Pending {
        next_count(before.tx_registrations())
    } else {
        before.tx_registrations()
    }
    &&& res is Ready ==> after == before
}

/// Storing `val` at `tx_idx` took `before` to `after`: an open queue gets
/// the value in that slot, and a registered consumer's waker is handed to
/// `Waker::wake` once and forgotten; the producer's waker is kept; a shut
/// queue is unchanged.
pub open spec fn send_step<T>(before: Queue<T>, after: Queue<T>, tx_idx: int, val: T) -> bool {
    &&& after.closed() == before.closed()
    &&& after.tx_waiting() == before.tx_waiting()
    &&& after.tx_waker() == before.tx_waker()
    &&& after.tx_registrations() == before.tx_registrations()
    &&& after.tx_wakes() == before.tx_wakes()
    &&& after.rx_registrations() == before.rx_registrations()
    &&& if before.closed() {
        &&& after.slots() == before.slots()
        &&& after.rx_waiting() == before.rx_waiting()
        &&& after == before
    } else {
        &&& after.slots() == before.slots().update(tx_idx, Some(val))
        &&& !after.rx_waiting()
        &&& after.rx_wakes() == wakes_after(before.rx_waiting(), before.rx_wakes())
    }
}

/// Taking the value `val` out of the slot at `rx_idx` took `before` to
/// `after`: the slot is emptied, a registered producer's waker is handed to
/// `Waker::wake` once and forgotten, and the consumer's waker is kept.
pub open spec fn take_step<T>(before: Queue<T>, after: Queue<T>, rx_idx: int, val: T) -> bool {
    &&& before.slots()[rx_idx] == Some(val)
    &&& after.slots() == before.slots().update(rx_idx, None)
    &&& after.closed() == before.closed()
    &&& after.rx_waiting() == before.rx_waiting()
    &&& after.rx_waker() == before.rx_waker()
    &&& after.rx_registrations() == before.rx_registrations()
    &&& after.rx_wakes() == before.rx_wakes()
    &&& !after.tx_waiting()
    &&& after.tx_registrations() == before.tx_registrations()
    &&& after.tx_wakes() == wakes_after(before.tx_waiting(), before.tx_wakes())
}

/// A consumer's poll of the slot at `rx_idx` took `before` to `after` and
/// answered `res`: a value is taken out; or the end of the stream is
/// answered and nothing changes; or the answer is `Pending` and only a
/// caller's waker is registered (one more registration), in place of any
/// registered before.
pub open spec fn recv_step<T>(
    before: Queue<T>,
    after: Queue<T>,
    rx_idx: int,
    res: Poll<Option<T>>,
) -> bool {
    &&& res == recv_outcome(before.closed(), before.slots(), rx_idx)
    &&& match before.slots()[rx_idx] {
        Some(v) => take_step(before, after, rx_idx, v),
        None => {
            &&& after.slots() == before.slots()
            &&& after.closed() == before.closed()
            &&& after.tx_waiting() == before.tx_waiting()
            &&& after.rx_waiting() == (before.rx_waiting() || res is Pending)
            &&& after.tx_waker() == before.tx_waker()
            &&& after.tx_registrations() == before.tx_registrations()
            &&& after.tx_wakes() == before.tx_wakes()
            &&& after.rx_wakes() == before.rx_wakes()
            &&& after.rx_registrations() == if res is Pending {
                next_count(before.rx_registrations())
            } else {
                before.rx_registrations()
            }
            &&& res is Ready ==> after == before
        },
    }
}

/// The producer's shutdown took `before` to `after`: the queue is shut, its
/// slots and the producer's waker are kept, and a waiting consumer's waker
/// is handed to `Waker::wake` once and forgotten; on a queue already shut
/// nothing changes.
pub open spec fn tx_shutdown_step<T>(before: Queue<T>, after: Queue<T>) -> bool {
    &&& after.closed()
    &&& after.slots() == before.slots()
    &&& after.tx_waiting() == before.tx_waiting()
    &&& after.rx_waiting() == (before.closed() && before.rx_waiting())
    &&& after.tx_waker() == before.tx_waker()
    &&& after.tx_registrations() == before.tx_registrations()
    &&& after.tx_wakes() == before.tx_wakes()
    &&& after.rx_registrations() == before.rx_registrations()
    &&& after.rx_wakes() == wakes_after(!before.closed() && before.rx_waiting(), before.rx_wakes())
    &&& before.closed() ==> after == before
}

/// The consumer's shutdown took `before` to `after`: the queue is shut, its
/// slots and the consumer's waker are kept, and a waiting producer's waker
/// is handed to `Waker::wake` once and forgotten; on a queue already shut
/// nothing changes.
pub open spec fn rx_shutdown_step<T>(before: Queue<T>, after: Queue<T>) -> bool {
    &&& after.closed()
    &&& after.slots() == before.slots()
    &&& after.rx_waiting() == before.rx_waiting()
    &&& after.tx_waiting() == (before.closed() && before.tx_waiting())
    &&& after.rx_waker() == before.rx_waker()
    &&& after.rx_registrations() == before.rx_registrations()
    &&& after.rx_wakes() == before.rx_wakes()
    &&& after.tx_registrations() == before.tx_registrations()
    &&& after.tx_wakes() == wakes_after(!before.closed() && before.tx_waiting(), before.tx_wakes())
    &&& before.closed() ==> after == before
}

/// One call of a `Queue` method, with its arguments and its answer.
pub enum QueueOp<T> {
    AcquireTxSlot { tx_idx: int, res: Poll<Result<(), SendError>> },
    DoSend { tx_idx: int, val: T },
    PollRecv { rx_idx: int, res: Poll<Option<T>> },
    DoRecv { rx_idx: int, val: T },
    TxShutdown,
    RxShutdown,
}

/// The call `op`, made on `before` as that method requires, took the queue
/// to `after`, as that method's contract says.
pub open spec fn queue_step<T>(before: Queue<T>, after: Queue<T>, op: QueueOp<T>) -> bool {
    let n = before.slots().len() as int;
    match op {
        QueueOp::AcquireTxSlot { tx_idx, res } => {
            &&& !before.closed() ==> 0 <= tx_idx < n
            &&& acquire_step(before, after, tx_idx, res)
        },
        QueueOp::DoSend { tx_idx, val } => {
            &&& 0 <= tx_idx < n
            &&& send_step(before, after, tx_idx, val)
        },
        QueueOp::PollRecv { rx_idx, res } => {
            &&& 0 <= rx_idx < n
            &&& recv_step(before, after, rx_idx, res)
        },
        QueueOp::DoRecv { rx_idx, val } => {
            &&& 0 <= rx_idx < n
            &&& take_step(before, after, rx_idx, val)
        },
        QueueOp::TxShutdown => tx_shutdown_step(before, after),
        QueueOp::RxShutdown => rx_shutdown_step(before, after),
    }
}

impl<T> Queue<T> {
    /// The slots, in index order; `None` is an empty slot.
    pub closed spec fn slots(&self) -> Seq<Option<T>> {
        self.queue@
    }

    /// Whether either side has shut the queue down.
    pub closed spec fn closed(&self) -> bool {
        self.is_shutdown
    }

    /// The waker a producer registered to wait for a free slot, if any.
    pub closed spec fn tx_waker(&self) -> Option<Waker> {
        self.tx_waker.waker
    }

    /// The waker a consumer registered to wait for a value, if any.
    pub closed spec fn rx_waker(&self) -> Option<Waker> {
        self.rx_waker.waker
    }

    /// How many wakers a producer has registered here, each in place of the
    /// one before (counted modulo 2^64).
    pub closed spec fn tx_registrations(&self) -> u64 {
        self.tx_waker.registrations
    }

    /// How many wakers a consumer has registered here (counted modulo 2^64).
    pub closed spec fn rx_registrations(&self) -> u64 {
        self.rx_waker.registrations
    }

    /// How many times the producer's registered waker was handed to
    /// `Waker::wake` (counted modulo 2^64).
    pub closed spec fn tx_wakes(&self) -> u64 {
        self.tx_waker.wakes
    }

    /// How many times the consumer's registered waker was handed to
    /// `Waker::wake` (counted modulo 2^64).
    pub closed spec fn rx_wakes(&self) -> u64 {
        self.rx_waker.wakes
    }

    /// Whether a producer's waker is registered, waiting for a free slot.
    pub open spec fn tx_waiting(&self) -> bool {
        self.tx_waker() is Some
    }

    /// Whether a consumer's waker is registered, waiting for a value.
    pub open spec fn rx_waiting(&self) -> bool {
        self.rx_waker() is Some
    }

    /// A queue of `capacity` empty slots, open, with no waker registered.
    pub fn new(capacity: usize) -> (q: Self)
        requires
            capacity > 0,
            is_power_of_two(capacity),
        ensures
            q.slots() == Seq::new(capacity as nat, |i: int| None::<T>),
            !q.closed(),
            !q.tx_waiting(),
            !q.rx_waiting(),
            q.tx_registrations() == 0 && q.tx_wakes() == 0,
            q.rx_registrations() == 0 && q.rx_wakes() == 0,
    {
        let mut queue: Vec<Option<T>> = Vec::with_capacity(capacity);
        let mut i: usize = 0;
        while i < capacity
            invariant
                i <= capacity,
                queue@ == Seq::new(i as nat, |j: int| None::<T>),
            decreases capacity - i,
        {
            queue.push(None);
            i = i + 1;
        }
        Queue {
            is_shutdown: false,
            queue,
            tx_waker: MaybeWaker::new(None),
            rx_waker: MaybeWaker::new(None),
        }
    }

    /// The number of slots.
    pub fn capacity(&self) -> (n: usize)
        ensures
            n == self.slots().len(),
    {
        self.queue.len()
    }

    fn is_tx_slot_available(&self, tx_idx: usize) -> (b: bool)
        requires
            tx_idx < self.slots().len(),
        ensures
            b == (self.slots()[tx_idx as int] is None),
    {
        self.queue[tx_idx].is_none()
    }

    fn is_empty(&self, rx_idx: usize) -> (b: bool)
        requires
            rx_idx < self.slots().len(),
        ensures
            b == (self.slots()[rx_idx as int] is None),
    {
        self.queue[rx_idx].is_none()
    }

    /// Asks for the slot at `tx_idx`: `Ready(Err(Closed))` once the queue is
    /// shut down, `Ready(Ok(()))` when the slot is free, and otherwise
    /// `Pending`, after registering the waker of `cx` to be woken once the
    /// consumer frees a slot.
    pub fn poll_acquire_tx_slot(&mut self, cx: &mut Context<'_>, tx_idx: usize) -> (res: Poll<
        Result<(), SendError>,
    >)
        requires
            !old(self).closed() ==> tx_idx < old(self).slots().len(),
        ensures
            acquire_step(*old(self), *final(self), tx_idx as int, res),
    {
        if self.is_shutdown {
            Poll::Ready(Err(SendError::Closed))
        } else if self.is_tx_slot_available(tx_idx) {
            Poll::Ready(Ok(()))
        } else {
            self.tx_waker.register_by_ref(context_waker(cx));
            Poll::Pending
        }
    }

    /// Stores `val` in the slot at `tx_idx` and wakes a waiting consumer.
    /// Once the queue is shut down, `val` is dropped and nothing changes.
    /// Whatever the slot held is overwritten: a producer that got
    /// `Ready(Ok(()))` for this slot knows it is free.
    pub fn do_send(&mut self, tx_idx: usize, val: T)
        requires
            tx_idx < old(self).slots().len(),
        ensures
            send_step(*old(self), *final(self), tx_idx as int, val),
    {
        if !self.is_shutdown {
            self.queue.set(tx_idx, Some(val));
            self.rx_waker.wake();
        }
    }

    /// Polls the slot at `rx_idx`: takes its value when it holds one (and
    /// wakes a waiting producer), answers `Ready(None)` when it is empty and
    /// the queue is shut down, and otherwise registers the waker of `cx` and
    /// answers `Pending`.
    pub fn poll_recv(&mut self, cx: &mut Context<'_>, rx_idx: usize) -> (res: Poll<Option<T>>)
        requires
            rx_idx < old(self).slots().len(),
        ensures
            recv_step(*old(self), *final(self), rx_idx as int, res),
    {
        if self.is_empty(rx_idx) {
            if self.is_shutdown {
                return Poll::Ready(None);
            } else {
                self.rx_waker.register_by_ref(context_waker(cx));
                return Poll::Pending;
            }
        } else {
            let val = self.do_recv(rx_idx);
            Poll::Ready(Some(val))
        }
    }

    /// Takes the value out of the slot at `rx_idx`, which must hold one, and
    /// wakes a waiting producer.
    pub fn do_recv(&mut self, rx_idx: usize) -> (val: T)
        requires
            rx_idx < old(self).slots().len(),
            old(self).slots()[rx_idx as int] is Some,
        ensures
            take_step(*old(self), *final(self), rx_idx as int, val),
    {
        let val = self.queue[rx_idx].take().unwrap();
        self.tx_waker.wake();
        val
    }

    /// Shuts the queue down from the producer's side, waking a waiting
    /// consumer the first time.
    pub fn tx_shutdown(&mut self)
        ensures
            tx_shutdown_step(*old(self), *final(self)),
    {
        if !self.is_shutdown {
            self.is_shutdown = true;
            self.rx_waker.wake();
        }
    }

    /// Shuts the queue down from the consumer's side, waking a waiting
    /// producer the first time.
    pub fn rx_shutdown(&mut self)
        ensures
            rx_shutdown_step(*old(self), *final(self)),
    {
        if !self.is_shutdown {
            self.is_shutdown = true;
            self.tx_waker.wake();
        }
    }
}

/// A producer told to wait has its caller's waker registered (one more
/// registration), and the consumer's next take hands exactly that waker to
/// `Waker::wake`, once, and forgets it; the consumer's own waker is left as
/// it was.
pub proof fn law_recv_clears_waiting_sender<T>(
    q0: Queue<T>,
    q1: Queue<T>,
    q2: Queue<T>,
    tx_idx: int,
    rx_idx: int,
    val: T,
)
    requires
        acquire_step(q0, q1, tx_idx, Poll::Pending),
        take_step(q1, q2, rx_idx, val),
    ensures
        q1.tx_waiting(),
        q1.tx_registrations() == next_count(q0.tx_registrations()),
        !q2.tx_waiting(),
        q2.tx_wakes() == next_count(q0.tx_wakes()),
        q2.tx_registrations() == q1.tx_registrations(),
        q2.rx_waker() == q0.rx_waker(),
        q2.rx_wakes() == q0.rx_wakes(),
{
}

/// A consumer told to wait has its caller's waker registered; the queue is
/// open while it waits, so the producer's next send stores the value and
/// hands exactly that waker to `Waker::wake`, once, and forgets it; the
/// producer's own waker is left as it was.
pub proof fn law_send_clears_waiting_receiver<T>(
    q0: Queue<T>,
    q1: Queue<T>,
    q2: Queue<T>,
    rx_idx: int,
    tx_idx: int,
    val: T,
)
    requires
        recv_step(q0, q1, rx_idx, Poll::Pending),
        send_step(q1, q2, tx_idx, val),
    ensures
        q1.rx_waiting(),
        q1.rx_registrations() == next_count(q0.rx_registrations()),
        !q1.closed(),
        q2.slots() == q1.slots().update(tx_idx, Some(val)),
        !q2.rx_waiting(),
        q2.rx_wakes() == next_count(q0.rx_wakes()),
        q2.rx_registrations() == q1.rx_registrations(),
        q2.tx_waker() == q0.tx_waker(),
        q2.tx_wakes() == q0.tx_wakes(),
{
}

/// A store into an open queue wakes the consumer exactly when one waits:
/// a registered consumer's waker is handed to `Waker::wake` once and
/// forgotten, and with none registered no wake happens. The producer's
/// waker is untouched, and a store into a shut queue changes nothing.
pub proof fn law_store_wakes_waiting_receiver<T>(
    before: Queue<T>,
    after: Queue<T>,
    tx_idx: int,
    val: T,
)
    requires
        0 <= tx_idx < before.slots().len(),
        send_step(before, after, tx_idx, val),
    ensures
        !before.closed() ==> after.slots()[tx_idx] == Some(val),
        !before.closed() ==> !after.rx_waiting(),
        !before.closed() && before.rx_waiting() ==> after.rx_wakes() == next_count(
            before.rx_wakes(),
        ),
        !before.rx_waiting() || before.closed() ==> after.rx_wakes() == before.rx_wakes(),
        after.tx_waker() == before.tx_waker(),
        after.tx_wakes() == before.tx_wakes(),
        before.closed() ==> after == before,
{
}

/// Taking a value out wakes the producer exactly when one waits: a
/// registered producer's waker is handed to `Waker::wake` once and
/// forgotten, and with none registered no wake happens; the consumer's
/// waker is untouched. This holds whether the queue is open or shut.
pub proof fn law_take_wakes_waiting_sender<T>(
    before: Queue<T>,
    after: Queue<T>,
    rx_idx: int,
    val: T,
)
    requires
        0 <= rx_idx < before.slots().len(),
        take_step(before, after, rx_idx, val),
    ensures
        after.slots()[rx_idx] is None,
        !after.tx_waiting(),
        before.tx_waiting() ==> after.tx_wakes() == next_count(before.tx_wakes()),
        !before.tx_waiting() ==> after.tx_wakes() == before.tx_wakes(),
        after.rx_waker() == before.rx_waker(),
        after.rx_wakes() == before.rx_wakes(),
{
}

/// The producer's shutdown of an open queue wakes a waiting consumer once,
/// and that consumer's next poll of the empty slot it waited on answers the
/// end of the stream. A shutdown of a queue already shut wakes nobody.
pub proof fn law_tx_shutdown_wakes_receiver<T>(
    q0: Queue<T>,
    q1: Queue<T>,
    q2: Queue<T>,
    q3: Queue<T>,
    rx_idx: int,
    res: Poll<Option<T>>,
)
    requires
        0 <= rx_idx < q0.slots().len(),
        recv_step(q0, q1, rx_idx, Poll::Pending),
        tx_shutdown_step(q1, q2),
        recv_step(q2, q3, rx_idx, res),
    ensures
        q1.rx_waiting(),
        !q2.rx_waiting(),
        q2.rx_wakes() == next_count(q0.rx_wakes()),
        q2.tx_waker() == q1.tx_waker(),
        q2.tx_wakes() == q1.tx_wakes(),
        res == Poll::<Option<T>>::Ready(None),
{
}

/// The consumer's shutdown of an open queue wakes a waiting producer once,
/// and that producer's next request for a slot is refused with `Closed`.
/// A shutdown of a queue already shut wakes nobody.
pub proof fn law_rx_shutdown_wakes_sender<T>(
    q0: Queue<T>,
    q1: Queue<T>,
    q2: Queue<T>,
    q3: Queue<T>,
    tx_idx: int,
    res: Poll<Result<(), SendError>>,
)
    requires
        acquire_step(q0, q1, tx_idx, Poll::Pending),
        rx_shutdown_step(q1, q2),
        acquire_step(q2, q3, tx_idx, res),
    ensures
        q1.tx_waiting(),
        !q2.tx_waiting(),
        q2.tx_wakes() == next_count(q0.tx_wakes()),
        q2.rx_waker() == q1.rx_waker(),
        q2.rx_wakes() == q1.rx_wakes(),
        res == Poll::<Result<(), SendError>>::Ready(Err(SendError::Closed)),
{
}

/// A second shutdown, from either side, changes nothing and wakes nobody.
pub proof fn law_repeated_shutdown_changes_nothing<T>(
    q0: Queue<T>,
    q1: Queue<T>,
    q2: Queue<T>,
    second_from_tx: bool,
)
    requires
        tx_shutdown_step(q0, q1) || rx_shutdown_step(q0, q1),
        second_from_tx ==> tx_shutdown_step(q1, q2),
        !second_from_tx ==> rx_shutdown_step(q1, q2),
    ensures
        q2 == q1,
        q2.tx_wakes() == q1.tx_wakes(),
        q2.rx_wakes() == q1.rx_wakes(),
{
}

/// Each `Pending` answer to a producer registers that caller's waker in
/// place of the one before: after two such answers (from two tasks, say)
/// two registrations have been made, and the consumer's next take wakes
/// once, the waker of the later caller, and never the earlier one.
pub proof fn law_repoll_replaces_sender_waker<T>(
    q0: Queue<T>,
    q1: Queue<T>,
    q2: Queue<T>,
    q3: Queue<T>,
    first_idx: int,
    second_idx: int,
    rx_idx: int,
    val: T,
)
    requires
        acquire_step(q0, q1, first_idx, Poll::Pending),
        acquire_step(q1, q2, second_idx, Poll::Pending),
        take_step(q2, q3, rx_idx, val),
    ensures
        q2.tx_registrations() == next_count(next_count(q0.tx_registrations())),
        q2.tx_wakes() == q0.tx_wakes(),
        q3.tx_wakes() == next_count(q0.tx_wakes()),
        !q3.tx_waiting(),
{
}

/// Each `Pending` answer to a consumer registers that caller's waker in
/// place of the one before: after two such answers two registrations have
/// been made, and the producer's next store wakes once, the waker of the
/// later caller.
pub proof fn law_repoll_replaces_receiver_waker<T>(
    q0: Queue<T>,
    q1: Queue<T>,
    q2: Queue<T>,
    q3: Queue<T>,
    first_idx: int,
    second_idx: int,
    tx_idx: int,
    val: T,
)
    requires
        recv_step(q0, q1, first_idx, Poll::Pending),
        recv_step(q1, q2, second_idx, Poll::Pending),
        send_step(q2, q3, tx_idx, val),
    ensures
        q2.rx_registrations() == next_count(next_count(q0.rx_registrations())),
        q2.rx_wakes() == q0.rx_wakes(),
        q3.rx_wakes() == next_count(q0.rx_wakes()),
        !q3.rx_waiting(),
{
}

proof fn lemma_queue_run_prefix<T>(queues: Seq<Queue<T>>, ops: Seq<QueueOp<T>>, i: int, j: int)
    requires
        queues.len() == ops.len() + 1,
        forall|k: int| 0 <= k < ops.len() ==> queue_step(queues[k], queues[k + 1], #[trigger] ops[k]),
        0 <= i <= j <= ops.len(),
    ensures
        queues[j].slots().len() == queues[i].slots().len(),
        queues[i].closed() ==> queues[j].closed(),
    decreases j - i,
{
    if i < j {
        lemma_queue_run_prefix(queues, ops, i, j - 1);
        let op = ops[j - 1];
        assert(queue_step(queues[j - 1], queues[j], op));
        match op {
            QueueOp::PollRecv { rx_idx, res } => {
                if queues[j - 1].slots()[rx_idx] is Some {
                    let v = queues[j - 1].slots()[rx_idx]->0;
                    assert(take_step(queues[j - 1], queues[j], rx_idx, v));
                }
            },
            _ => {},
        }
    }
}

/// Over any sequence of calls of `Queue` methods, each as its contract says,
/// the number of slots never changes, and a queue once shut stays shut:
/// no method reopens it.
pub proof fn law_queue_keeps_slots_and_stays_shut<T>(queues: Seq<Queue<T>>, ops: Seq<QueueOp<T>>)
    requires
        queues.len() == ops.len() + 1,
        forall|k: int| 0 <= k < ops.len() ==> queue_step(queues[k], queues[k + 1], #[trigger] ops[k]),
    ensures
        forall|k: int|
            0 <= k < queues.len() ==> (#[trigger] queues[k]).slots().len() == queues[0].slots().len(),
        forall|i: int, j: int|
            0 <= i <= j < queues.len() && (#[trigger] queues[i]).closed() ==> (#[trigger] queues[j]).closed(),
{
    assert forall|k: int| 0 <= k < queues.len() implies (#[trigger] queues[k]).slots().len()
        == queues[0].slots().len() by {
        lemma_queue_run_prefix(queues, ops, 0, k);
    }
    assert forall|i: int, j: int|
        0 <= i <= j < queues.len() && (#[trigger] queues[i]).closed() implies (#[trigger] queues[j]).closed() by {
        lemma_queue_run_prefix(queues, ops, i, j);
    }
}

/// Whether the call `op` may take out or replace the producer's waker: a
/// request for a slot, a take of a value, or the consumer's shutdown.
pub open spec fn touches_tx_waker<T>(op: QueueOp<T>) -> bool {
    match op {
        QueueOp::AcquireTxSlot { .. } => true,
        QueueOp::DoRecv { .. } => true,
        QueueOp::PollRecv { res, .. } => res matches Poll::Ready(Some(_)),
        QueueOp::RxShutdown => true,
        _ => false,
    }
}

/// Whether the call `op` may take out or replace the consumer's waker: a
/// poll for a value, a store, or the producer's shutdown.
pub open spec fn touches_rx_waker<T>(op: QueueOp<T>) -> bool {
    match op {
        QueueOp::PollRecv { .. } => true,
        QueueOp::DoSend { .. } => true,
        QueueOp::TxShutdown => true,
        _ => false,
    }
}

/// A parked waker is never lost or swapped behind its owner's back: over
/// any sequence of `Queue` calls, the producer's registered waker stays the
/// very same until a call that may take it out (a take of a value, the
/// consumer's shutdown) or replace it (the producer's next request for a
/// slot); and the consumer's likewise, until a store, the producer's
/// shutdown, or the consumer's next poll.
pub proof fn law_parked_wakers_kept<T>(queues: Seq<Queue<T>>, ops: Seq<QueueOp<T>>, i: int, j: int)
    requires
        queues.len() == ops.len() + 1,
        forall|k: int| 0 <= k < ops.len() ==> queue_step(queues[k], queues[k + 1], #[trigger] ops[k]),
        0 <= i <= j <= ops.len(),
    ensures
        (forall|k: int| i <= k < j ==> !touches_tx_waker(#[trigger] ops[k])) ==> queues[j].tx_waker()
            == queues[i].tx_waker(),
        (forall|k: int| i <= k < j ==> !touches_rx_waker(#[trigger] ops[k])) ==> queues[j].rx_waker()
            == queues[i].rx_waker(),
    decreases j - i,
{
    if i < j {
        law_parked_wakers_kept(queues, ops, i, j - 1);
        let op = ops[j - 1];
        assert(queue_step(queues[j - 1], queues[j], op));
        match op {
            QueueOp::PollRecv { rx_idx, res } => {
                if queues[j - 1].slots()[rx_idx] is Some {
                    let v = queues[j - 1].slots()[rx_idx]->0;
                    assert(take_step(queues[j - 1], queues[j], rx_idx, v));
                }
            },
            _ => {},
        }
    }
}

} // verus!
