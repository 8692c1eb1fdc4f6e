//! The producer's and the consumer's side of a queue: how the number of
//! slots is chosen, how each side's index walks the ring, and what one poll
//! of each side does to the queue it has locked.

use crate::mutex_queue::{
    acquire_outcome, acquire_step, is_power_of_two, recv_outcome, recv_step, rx_shutdown_step,
    send_step, tx_shutdown_step, Queue, SendError,
};
use crate::task::Poll;
use std::task::Context;
use vstd::prelude::*;

verus! {

/// `p` is the smallest power of two that is at least `n`.
pub open spec fn is_next_power_of_two(n: usize, p: usize) -> bool {
    &&& is_power_of_two(p)
    &&& n <= p
    &&& forall|m: usize| is_power_of_two(m) && n <= m ==> p <= m
}

proof fn lemma_double_power_of_two(p: usize, q: usize)
    by (bit_vector)
    requires
        is_power_of_two(p),
        q == 2 * p,
    ensures
        is_power_of_two(q),
{
}

proof fn lemma_no_power_of_two_between(p: usize, m: usize)
    by (bit_vector)
    requires
        is_power_of_two(p),
        is_power_of_two(m),
        p <= m,
        m < 2 * p,
    ensures
        m == p,
{
}

/// The number of slots of a channel asked to hold `requested` values: the
/// smallest power of two that is at least `requested`, or `None` when that
/// does not fit in a `usize`.
pub fn channel_capacity(requested: usize) -> (cap: Option<usize>)
    ensures
        match cap {
            Some(p) => is_next_power_of_two(requested, p),
            None => forall|m: usize| is_power_of_two(m) ==> m < requested,
        },
{
    let mut p: usize = 1;
    assert(is_power_of_two(1usize)) by (bit_vector);
    while p < requested
        invariant
            is_power_of_two(p),
            forall|m: usize| is_power_of_two(m) && m < p ==> m < requested,
        decreases usize::MAX - p,
    {
        if p > usize::MAX / 2 {
            assert forall|m: usize| is_power_of_two(m) implies m < requested by {
                if m >= p {
                    lemma_no_power_of_two_between(p, m);
                }
            }
            return None;
        }
        proof {
            lemma_double_power_of_two(p, (2 * p) as usize);
            assert forall|m: usize| is_power_of_two(m) && m < 2 * p implies m < requested by {
                if m >= p {
                    lemma_no_power_of_two_between(p, m);
                }
            }
        }
        p = p * 2;
    }
    Some(p)
}

/// The index after `idx` in a ring of `capacity` slots.
pub fn inc_idx(idx: usize, capacity: usize) -> (next: usize)
    requires
        idx < capacity,
        is_power_of_two(capacity),
    ensures
        next == (idx + 1) % (capacity as int),
{
    assert(((idx + 1) as usize) & ((capacity - 1) as usize) == (idx + 1) % (capacity as int))
        by (bit_vector)
        requires
            idx < capacity,
            is_power_of_two(capacity),
    ;
    (idx + 1) & (capacity - 1)
}

/// One poll of a producer that wants to send `val_before`: it asked for the
/// slot at `tx_idx` and got `res`; when that is `Ready(Ok(()))` the value went
/// into the slot, the producer's index moved on and it holds no value any
/// more; otherwise only the request took place.
pub open spec fn poll_send_step<T>(
    before: Queue<T>,
    after: Queue<T>,
    tx_idx: int,
    next_tx_idx: int,
    val_before: Option<T>,
    val_after: Option<T>,
    res: Poll<Result<(), SendError>>,
) -> bool {
    &&& res == acquire_outcome(before.closed(), before.slots(), tx_idx)
    &&& if res == Poll::<Result<(), SendError>>::Ready(Ok(())) {
        &&& val_before is Some
        &&& send_step(before, after, tx_idx, val_before->0)
        &&& next_tx_idx == (tx_idx + 1) % (before.slots().len() as int)
        &&& val_after is None
    } else {
        &&& acquire_step(before, after, tx_idx, res)
        &&& next_tx_idx == tx_idx
        &&& val_after == val_before
    }
}

/// One poll of a consumer at `rx_idx` that got `res`: its index moves on
/// whenever the answer is ready.
pub open spec fn poll_recv_step<T>(
    before: Queue<T>,
    after: Queue<T>,
    rx_idx: int,
    next_rx_idx: int,
    res: Poll<Option<T>>,
) -> bool {
    &&& recv_step(before, after, rx_idx, res)
    &&& next_rx_idx == if res is Ready {
        (rx_idx + 1) % (before.slots().len() as int)
    } else {
        rx_idx
    }
}

/// A producer's blocking send on the queue it has locked: stores `val` in
/// the slot at `tx_idx` (see `Queue::do_send`) and gives the producer's next
/// index.
pub fn sender_do_send<T>(queue: &mut Queue<T>, tx_idx: usize, capacity: usize, val: T) -> (next: usize)
    requires
        tx_idx < capacity,
        is_power_of_two(capacity),
        old(queue).slots().len() == capacity,
    ensures
        send_step(*old(queue), *final(queue), tx_idx as int, val),
        next == (tx_idx + 1) % (capacity as int),
{
    queue.do_send(tx_idx, val);
    inc_idx(tx_idx, capacity)
}

/// One poll of a producer's send on the queue it has locked: when the slot
/// at `*tx_idx` is granted, the value in `val` goes there and `*tx_idx`
/// moves on; otherwise the answer is handed back and `val` is kept for the
/// next poll.
pub fn sender_poll_send<T>(
    queue: &mut Queue<T>,
    cx: &mut Context<'_>,
    tx_idx: &mut usize,
    capacity: usize,
    val: &mut Option<T>,
) -> (res: Poll<Result<(), SendError>>)
    requires
        *old(tx_idx) < capacity,
        is_power_of_two(capacity),
        old(queue).slots().len() == capacity,
        acquire_outcome(old(queue).closed(), old(queue).slots(), *old(tx_idx) as int) == Poll::<
            Result<(), SendError>,
        >::Ready(Ok(())) ==> (*old(val)) is Some,
    ensures
        poll_send_step(
            *old(queue),
            *final(queue),
            *old(tx_idx) as int,
            *final(tx_idx) as int,
            *old(val),
            *final(val),
            res,
        ),
{
    match queue.poll_acquire_tx_slot(cx, *tx_idx) {
        Poll::Ready(Ok(())) => {
            let v = val.take().unwrap();
            queue.do_send(*tx_idx, v);
            *tx_idx = inc_idx(*tx_idx, capacity);
            Poll::Ready(Ok(()))
        },
        Poll::Ready(Err(err)) => Poll::Ready(Err(err)),
        Poll::Pending => Poll::Pending,
    }
}

/// One poll of a consumer on the queue it has locked (see
/// `Queue::poll_recv`); `*rx_idx` moves on whenever the answer is ready.
pub fn receiver_poll_recv<T>(
    queue: &mut Queue<T>,
    cx: &mut Context<'_>,
    rx_idx: &mut usize,
    capacity: usize,
) -> (res: Poll<Option<T>>)
    requires
        *old(rx_idx) < capacity,
        is_power_of_two(capacity),
        old(queue).slots().len() == capacity,
    ensures
        poll_recv_step(*old(queue), *final(queue), *old(rx_idx) as int, *final(rx_idx) as int, res),
{
    let res = queue.poll_recv(cx, *rx_idx);
    if let Poll::Ready(_) = res {
        *rx_idx = inc_idx(*rx_idx, capacity);
    }
    res
}

/// How many steps after `rx_idx` slot `i` comes, in a ring of `n` slots.
pub open spec fn ring_offset(i: int, rx_idx: int, n: int) -> int {
    if i >= rx_idx {
        i - rx_idx
    } else {
        i - rx_idx + n
    }
}

/// The slots hold exactly the values of `pending`, oldest first, starting at
/// the consumer's index `rx_idx` and wrapping around; every other slot is empty.
pub open spec fn holds_in_order<T>(slots: Seq<Option<T>>, rx_idx: int, pending: Seq<T>) -> bool {
    &&& 0 <= rx_idx < slots.len()
    &&& pending.len() <= slots.len()
    &&& forall|i: int|
        0 <= i < slots.len() ==> #[trigger] slots[i] == if ring_offset(
            i,
            rx_idx,
            slots.len() as int,
        ) < pending.len() {
            Some(pending[ring_offset(i, rx_idx, slots.len() as int)])
        } else {
            None
        }
}

/// A channel whose consumer stands at `rx_idx` and whose producer stands at
/// `tx_idx` carries the values `pending`, in the order they were sent.
pub open spec fn carries<T>(slots: Seq<Option<T>>, tx_idx: int, rx_idx: int, pending: Seq<T>) -> bool {
    &&& holds_in_order(slots, rx_idx, pending)
    &&& tx_idx == (rx_idx + pending.len()) % (slots.len() as int)
}

proof fn lemma_mod_wrap(a: int, n: int)
    requires
        n > 0,
        0 <= a < 2 * n,
    ensures
        a % n == if a < n {
            a
        } else {
            a - n
        },
{
    if a < n {
        vstd::arithmetic::div_mod::lemma_small_mod(a as nat, n as nat);
    } else {
        vstd::arithmetic::div_mod::lemma_small_mod((a - n) as nat, n as nat);
        vstd::arithmetic::div_mod::lemma_mod_sub_multiples_vanish(a, n);
    }
}

/// A fresh channel carries nothing: both sides stand at slot 0 of a ring
/// of empty slots.
pub proof fn law_new_channel_is_empty<T>(q: Queue<T>, capacity: usize)
    requires
        capacity > 0,
        q.slots() == Seq::new(capacity as nat, |i: int| None::<T>),
    ensures
        carries(q.slots(), 0, 0, Seq::<T>::empty()),
{
    lemma_mod_wrap(0, capacity as int);
}

/// A producer is granted its slot exactly when the channel is open and
/// carries fewer values than it has slots; a shut channel refuses with
/// `Closed`, and a full one makes the producer wait.
pub proof fn law_send_granted_iff_room<T>(q: Queue<T>, tx_idx: int, rx_idx: int, pending: Seq<T>)
    requires
        carries(q.slots(), tx_idx, rx_idx, pending),
    ensures
        acquire_outcome(q.closed(), q.slots(), tx_idx) == if q.closed() {
            Poll::Ready(Err(SendError::Closed))
        } else if pending.len() < q.slots().len() {
            Poll::<Result<(), SendError>>::Ready(Ok(()))
        } else {
            Poll::Pending
        },
{
    let n = q.slots().len() as int;
    lemma_mod_wrap(rx_idx + pending.len(), n);
    assert(q.slots()[tx_idx] == if ring_offset(tx_idx, rx_idx, n) < pending.len() {
        Some(pending[ring_offset(tx_idx, rx_idx, n)])
    } else {
        None::<T>
    });
}

/// A value stored at the producer's index while the channel is open and
/// holds fewer values than it has slots goes in after all values in flight,
/// and the producer's next index follows it. This is the store that comes
/// after a granted `poll_acquire_tx_slot` (see `sender_do_send`).
pub proof fn law_store_appends<T>(
    before: Queue<T>,
    after: Queue<T>,
    tx_idx: int,
    rx_idx: int,
    pending: Seq<T>,
    val: T,
)
    requires
        carries(before.slots(), tx_idx, rx_idx, pending),
        !before.closed(),
        pending.len() < before.slots().len(),
        send_step(before, after, tx_idx, val),
    ensures
        carries(
            after.slots(),
            (tx_idx + 1) % (before.slots().len() as int),
            rx_idx,
            pending.push(val),
        ),
{
    let n = before.slots().len() as int;
    let p2 = pending.push(val);
    lemma_mod_wrap(rx_idx + pending.len(), n);
    lemma_mod_wrap(tx_idx + 1, n);
    lemma_mod_wrap(rx_idx + p2.len(), n);
    assert forall|i: int| 0 <= i < n implies #[trigger] after.slots()[i] == if ring_offset(
        i,
        rx_idx,
        n,
    ) < p2.len() {
        Some(p2[ring_offset(i, rx_idx, n)])
    } else {
        None
    } by {
        assert(before.slots()[i] == if ring_offset(i, rx_idx, n) < pending.len() {
            Some(pending[ring_offset(i, rx_idx, n)])
        } else {
            None::<T>
        });
    }
}

/// A send keeps the channel in order: a granted send appends its value
/// after all values in flight and moves the producer on; a refused or
/// waiting one leaves the values in flight and the producer where they were.
pub proof fn law_send_appends<T>(
    before: Queue<T>,
    after: Queue<T>,
    tx_idx: int,
    next_tx_idx: int,
    rx_idx: int,
    pending: Seq<T>,
    val_before: Option<T>,
    val_after: Option<T>,
    res: Poll<Result<(), SendError>>,
)
    requires
        carries(before.slots(), tx_idx, rx_idx, pending),
        poll_send_step(before, after, tx_idx, next_tx_idx, val_before, val_after, res),
    ensures
        res == Poll::<Result<(), SendError>>::Ready(Ok(())) ==> carries(
            after.slots(),
            next_tx_idx,
            rx_idx,
            pending.push(val_before->0),
        ),
        res != Poll::<Result<(), SendError>>::Ready(Ok(())) ==> carries(
            after.slots(),
            next_tx_idx,
            rx_idx,
            pending,
        ),
{
    law_send_granted_iff_room(before, tx_idx, rx_idx, pending);
    if res == Poll::<Result<(), SendError>>::Ready(Ok(())) {
        law_store_appends(before, after, tx_idx, rx_idx, pending, val_before->0);
    }
}

/// A receive keeps the channel in order: while values are in flight the
/// consumer gets the oldest one and moves on past it; with none in flight it
/// gets `Ready(None)` once the channel is shut and waits otherwise, and the
/// ring stays empty.
pub proof fn law_recv_takes_oldest<T>(
    before: Queue<T>,
    after: Queue<T>,
    tx_idx: int,
    rx_idx: int,
    next_rx_idx: int,
    pending: Seq<T>,
    res: Poll<Option<T>>,
)
    requires
        carries(before.slots(), tx_idx, rx_idx, pending),
        poll_recv_step(before, after, rx_idx, next_rx_idx, res),
    ensures
        pending.len() > 0 ==> res == Poll::Ready(Some(pending[0])),
        pending.len() > 0 ==> carries(after.slots(), tx_idx, next_rx_idx, pending.drop_first()),
        pending.len() == 0 ==> res == if before.closed() {
            Poll::Ready(None)
        } else {
            Poll::<Option<T>>::Pending
        },
        pending.len() == 0 && !before.closed() ==> carries(
            after.slots(),
            tx_idx,
            next_rx_idx,
            pending,
        ),
        pending.len() == 0 ==> holds_in_order(after.slots(), next_rx_idx, pending),
{
    let n = before.slots().len() as int;
    assert(before.slots()[rx_idx] == if ring_offset(rx_idx, rx_idx, n) < pending.len() {
        Some(pending[ring_offset(rx_idx, rx_idx, n)])
    } else {
        None::<T>
    });
    lemma_mod_wrap(rx_idx + 1, n);
    lemma_mod_wrap(rx_idx + pending.len(), n);
    if pending.len() > 0 {
        let p2 = pending.drop_first();
        lemma_mod_wrap(next_rx_idx + p2.len(), n);
        assert forall|i: int| 0 <= i < n implies #[trigger] after.slots()[i] == if ring_offset(
            i,
            next_rx_idx,
            n,
        ) < p2.len() {
            Some(p2[ring_offset(i, next_rx_idx, n)])
        } else {
            None
        } by {
            assert(before.slots()[i] == if ring_offset(i, rx_idx, n) < pending.len() {
                Some(pending[ring_offset(i, rx_idx, n)])
            } else {
                None::<T>
            });
        }
    } else {
        assert forall|i: int| 0 <= i < n implies #[trigger] after.slots()[i] == if ring_offset(
            i,
            next_rx_idx,
            n,
        ) < pending.len() {
            Some(pending[ring_offset(i, next_rx_idx, n)])
        } else {
            None
        } by {
            assert(before.slots()[i] == if ring_offset(i, rx_idx, n) < pending.len() {
                Some(pending[ring_offset(i, rx_idx, n)])
            } else {
                None::<T>
            });
        }
    }
}

/// When a producer is granted the slot at `tx_idx`, the send that follows
/// fills exactly that slot, which was free: no value in flight is
/// overwritten.
pub proof fn law_granted_send_overwrites_nothing<T>(
    q0: Queue<T>,
    q1: Queue<T>,
    q2: Queue<T>,
    tx_idx: int,
    val: T,
)
    requires
        0 <= tx_idx < q0.slots().len(),
        acquire_step(q0, q1, tx_idx, Poll::Ready(Ok(()))),
        send_step(q1, q2, tx_idx, val),
    ensures
        q0.slots()[tx_idx] is None,
        q2.slots() == q0.slots().update(tx_idx, Some(val)),
        !q2.rx_waiting(),
{
}

/// Once a queue is shut down, every request for a slot is refused with
/// `Closed`, a send changes no slot, and it stays shut through every step.
pub proof fn law_closed_refuses_sends<T>(
    before: Queue<T>,
    after: Queue<T>,
    tx_idx: int,
    val: T,
)
    requires
        before.closed(),
        send_step(before, after, tx_idx, val),
    ensures
        acquire_outcome(before.closed(), before.slots(), tx_idx) == Poll::<
            Result<(), SendError>,
        >::Ready(Err(SendError::Closed)),
        after.slots() == before.slots(),
        after.closed(),
{
}

/// One thing that happens to a channel:
/// - `Send`: a producer's poll of a send (`sender_poll_send`), with the
///   value it held before and after and the answer;
/// - `Ready`: a producer's request for its slot ahead of a send
///   (`Queue::poll_acquire_tx_slot` at its index), with the answer;
/// - `StartSend`: a producer's store of a value at its index
///   (`sender_do_send`), and whether the value was kept;
/// - `Recv`: a consumer's poll (`receiver_poll_recv`), with the answer;
/// - `TxShutdown`, `RxShutdown`: a shutdown from either side.
pub enum ChannelEvent<T> {
    Send {
        val_before: Option<T>,
        val_after: Option<T>,
        send_res: Poll<Result<(), SendError>>,
    },
    Ready { ready_res: Poll<Result<(), SendError>> },
    StartSend { val: T, stored: bool },
    Recv { recv_res: Poll<Option<T>> },
    TxShutdown,
    RxShutdown,
}

/// The event `e` took the queue from `before` to `after`, the producer's
/// index from `tx_idx` to `next_tx_idx` and the consumer's from `rx_idx` to
/// `next_rx_idx`, as the contract of the function it stands for says.
pub open spec fn channel_step<T>(
    before: Queue<T>,
    after: Queue<T>,
    tx_idx: int,
    next_tx_idx: int,
    rx_idx: int,
    next_rx_idx: int,
    e: ChannelEvent<T>,
) -> bool {
    match e {
        ChannelEvent::Send { val_before, val_after, send_res } => {
            &&& poll_send_step(before, after, tx_idx, next_tx_idx, val_before, val_after, send_res)
            &&& next_rx_idx == rx_idx
        },
        ChannelEvent::Ready { ready_res } => {
            &&& acquire_step(before, after, tx_idx, ready_res)
            &&& next_tx_idx == tx_idx
            &&& next_rx_idx == rx_idx
        },
        ChannelEvent::StartSend { val, stored } => {
            &&& send_step(before, after, tx_idx, val)
            &&& next_tx_idx == (tx_idx + 1) % (before.slots().len() as int)
            &&& next_rx_idx == rx_idx
            &&& stored == !before.closed()
        },
        ChannelEvent::Recv { recv_res } => {
            &&& poll_recv_step(before, after, rx_idx, next_rx_idx, recv_res)
            &&& next_tx_idx == tx_idx
        },
        ChannelEvent::TxShutdown => {
            &&& tx_shutdown_step(before, after)
            &&& next_tx_idx == tx_idx
            &&& next_rx_idx == rx_idx
        },
        ChannelEvent::RxShutdown => {
            &&& rx_shutdown_step(before, after)
            &&& next_tx_idx == tx_idx
            &&& next_rx_idx == rx_idx
        },
    }
}

/// Whether `e` put a value into the channel: a granted send, or a store
/// while the queue was open.
pub open spec fn puts_value<T>(e: ChannelEvent<T>) -> bool {
    ||| e matches ChannelEvent::Send { send_res, .. } && send_res == Poll::<
        Result<(), SendError>,
    >::Ready(Ok(()))
    ||| e matches ChannelEvent::StartSend { stored, .. } && stored
}

/// The value that `e` puts into the channel, when it puts one.
pub open spec fn put_value<T>(e: ChannelEvent<T>) -> T {
    match e {
        ChannelEvent::Send { val_before, .. } => val_before->0,
        ChannelEvent::StartSend { val, .. } => val,
        _ => arbitrary(),
    }
}

/// The values put into the channel, in the order of the events.
pub open spec fn granted<T>(events: Seq<ChannelEvent<T>>) -> Seq<T>
    decreases events.len(),
{
    if events.len() == 0 {
        Seq::empty()
    } else if puts_value(events.last()) {
        granted(events.drop_last()).push(put_value(events.last()))
    } else {
        granted(events.drop_last())
    }
}

/// The values the consumer received, in the order of the events.
pub open spec fn delivered<T>(events: Seq<ChannelEvent<T>>) -> Seq<T>
    decreases events.len(),
{
    if events.len() == 0 {
        Seq::empty()
    } else {
        let before = delivered(events.drop_last());
        match events.last() {
            ChannelEvent::Recv { recv_res } => match recv_res {
                Poll::Ready(Some(v)) => before.push(v),
                _ => before,
            },
            _ => before,
        }
    }
}

/// Whether the producer, after the events `past`, holds a slot granted by
/// its last request: its last event was a `Ready` answered `Ready(Ok(()))`.
pub open spec fn holds_grant<T>(past: Seq<ChannelEvent<T>>) -> bool
    decreases past.len(),
{
    if past.len() == 0 {
        false
    } else {
        match past.last() {
            ChannelEvent::Ready { ready_res } => ready_res == Poll::<
                Result<(), SendError>,
            >::Ready(Ok(())),
            ChannelEvent::Send { .. } => false,
            ChannelEvent::StartSend { .. } => false,
            _ => holds_grant(past.drop_last()),
        }
    }
}

/// `states[k]` is the queue, `tx_idxs[k]` and `rx_idxs[k]` the two indices,
/// before `events[k]`: the channel starts fresh, with both indices at 0,
/// every event happens as its step says, and the producer stores a value
/// only while it holds a granted slot, as `Sender::poll_ready` asks of it.
pub open spec fn channel_run<T>(
    states: Seq<Queue<T>>,
    tx_idxs: Seq<int>,
    rx_idxs: Seq<int>,
    events: Seq<ChannelEvent<T>>,
) -> bool {
    &&& states.len() == events.len() + 1
    &&& tx_idxs.len() == states.len()
    &&& rx_idxs.len() == states.len()
    &&& states[0].slots().len() > 0
    &&& states[0].slots() == Seq::new(states[0].slots().len(), |i: int| None::<T>)
    &&& !states[0].closed()
    &&& tx_idxs[0] == 0
    &&& rx_idxs[0] == 0
    &&& forall|k: int|
        0 <= k < events.len() ==> channel_step(
            states[k],
            states[k + 1],
            tx_idxs[k],
            tx_idxs[k + 1],
            rx_idxs[k],
            rx_idxs[k + 1],
            #[trigger] events[k],
        )
    &&& forall|k: int|
        0 <= k < events.len() && (#[trigger] events[k]) is StartSend ==> holds_grant(
            events.take(k),
        )
}

/// What a consumer's poll answers when `granted` values were sent and
/// `delivered` of them received: the oldest value not yet received, else
/// the end of the stream once the queue is shut, else `Pending`.
pub open spec fn next_delivery<T>(granted: Seq<T>, delivered: Seq<T>, closed: bool) -> Poll<
    Option<T>,
> {
    if delivered.len() < granted.len() {
        Poll::Ready(Some(granted[delivered.len() as int]))
    } else if closed {
        Poll::Ready(None)
    } else {
        Poll::Pending
    }
}

/// What a producer's request for its slot answers when `in_flight` values
/// are in a channel of `capacity` slots.
pub open spec fn next_grant(in_flight: int, capacity: int, closed: bool) -> Poll<Result<(), SendError>> {
    if closed {
        Poll::Ready(Err(SendError::Closed))
    } else if in_flight < capacity {
        Poll::Ready(Ok(()))
    } else {
        Poll::Pending
    }
}

/// What the channel holds after the events `past`: the received values are
/// the first of the granted ones, the rest sit in the ring in order from the
/// consumer's index, the producer's index follows them while the queue is
/// open, and a producer holding a grant has a free slot.
spec fn run_invariant<T>(
    q: Queue<T>,
    tx_idx: int,
    rx_idx: int,
    past: Seq<ChannelEvent<T>>,
    capacity: nat,
) -> bool {
    let g = granted(past);
    let d = delivered(past);
    &&& q.slots().len() == capacity
    &&& d.len() <= g.len()
    &&& d == g.take(d.len() as int)
    &&& holds_in_order(q.slots(), rx_idx, g.skip(d.len() as int))
    &&& !q.closed() ==> tx_idx == (rx_idx + (g.len() - d.len())) % (capacity as int)
    &&& holds_grant(past) && !q.closed() ==> g.len() - d.len() < capacity
}

proof fn lemma_empty_ring_any_index<T>(slots: Seq<Option<T>>, rx_idx: int, other: int)
    requires
        holds_in_order(slots, rx_idx, Seq::<T>::empty()),
        0 <= other < slots.len(),
    ensures
        holds_in_order(slots, other, Seq::<T>::empty()),
        forall|i: int| 0 <= i < slots.len() ==> (#[trigger] slots[i]) is None,
{
}

proof fn lemma_run_step<T>(
    before: Queue<T>,
    after: Queue<T>,
    tx_idx: int,
    next_tx_idx: int,
    rx_idx: int,
    next_rx_idx: int,
    e: ChannelEvent<T>,
    past: Seq<ChannelEvent<T>>,
    capacity: nat,
)
    requires
        run_invariant(before, tx_idx, rx_idx, past, capacity),
        channel_step(before, after, tx_idx, next_tx_idx, rx_idx, next_rx_idx, e),
        e is StartSend ==> holds_grant(past),
    ensures
        run_invariant(after, next_tx_idx, next_rx_idx, past.push(e), capacity),
        after.closed() == (before.closed() || e is TxShutdown || e is RxShutdown),
        e is Send ==> e->send_res == next_grant(
            granted(past).len() - delivered(past).len(),
            capacity as int,
            before.closed(),
        ),
        e is Ready ==> e->ready_res == next_grant(
            granted(past).len() - delivered(past).len(),
            capacity as int,
            before.closed(),
        ),
        e is Recv ==> e->recv_res == next_delivery(granted(past), delivered(past), before.closed()),
        granted(past.push(e)) == if puts_value(e) {
            granted(past).push(put_value(e))
        } else {
            granted(past)
        },
        !(e is Recv && e->recv_res is Ready && e->recv_res->0 is Some) ==> delivered(past.push(e))
            == delivered(past),
{
    let g = granted(past);
    let d = delivered(past);
    let p = g.skip(d.len() as int);
    let n = capacity as int;
    let now = past.push(e);
    assert(now.drop_last() =~= past);
    assert(now.last() == e);
    let tx_ring = (rx_idx + p.len()) % n;
    assert(carries(before.slots(), tx_ring, rx_idx, p));
    match e {
        ChannelEvent::Send { val_before, val_after, send_res: res } => {
            assert(delivered(now) == d);
            if before.closed() {
                assert(res == acquire_outcome(before.closed(), before.slots(), tx_idx));
            } else {
                law_send_appends(
                    before,
                    after,
                    tx_idx,
                    next_tx_idx,
                    rx_idx,
                    p,
                    val_before,
                    val_after,
                    res,
                );
                law_send_granted_iff_room(before, tx_idx, rx_idx, p);
                if res == Poll::<Result<(), SendError>>::Ready(Ok(())) {
                    let v = val_before->0;
                    assert(g.push(v).skip(d.len() as int) =~= p.push(v));
                    assert(g.push(v).take(d.len() as int) =~= g.take(d.len() as int));
                }
            }
        },
        ChannelEvent::Ready { ready_res: res } => {
            assert(delivered(now) == d);
            if !before.closed() {
                law_send_granted_iff_room(before, tx_idx, rx_idx, p);
            }
        },
        ChannelEvent::StartSend { val, stored } => {
            assert(delivered(now) == d);
            assert(holds_grant(past));
            if !before.closed() {
                law_store_appends(before, after, tx_idx, rx_idx, p, val);
                assert(g.push(val).skip(d.len() as int) =~= p.push(val));
                assert(g.push(val).take(d.len() as int) =~= g.take(d.len() as int));
            }
        },
        ChannelEvent::Recv { recv_res: res } => {
            if p.len() > 0 {
                law_recv_takes_oldest(before, after, tx_ring, rx_idx, next_rx_idx, p, res);
                assert(p[0] == g[d.len() as int]);
                assert(delivered(now) == d.push(g[d.len() as int]));
                assert(d.push(g[d.len() as int]) =~= g.take(d.len() as int + 1));
                assert(p.drop_first() =~= g.skip(d.len() as int + 1));
            } else {
                assert(p =~= Seq::<T>::empty());
                lemma_empty_ring_any_index(before.slots(), rx_idx, rx_idx);
                assert(before.slots()[rx_idx] is None);
                assert(res == recv_outcome(before.closed(), before.slots(), rx_idx));
                assert(delivered(now) == d);
                assert(after.slots() == before.slots());
                lemma_mod_wrap(rx_idx + 1, n);
                lemma_empty_ring_any_index(before.slots(), rx_idx, next_rx_idx);
                if !before.closed() {
                    assert(next_rx_idx == rx_idx);
                }
            }
        },
        _ => {
            assert(delivered(now) == d);
        },
    }
}

proof fn lemma_run_prefix<T>(
    states: Seq<Queue<T>>,
    tx_idxs: Seq<int>,
    rx_idxs: Seq<int>,
    events: Seq<ChannelEvent<T>>,
    k: int,
)
    requires
        channel_run(states, tx_idxs, rx_idxs, events),
        0 <= k <= events.len(),
    ensures
        run_invariant(
            states[k],
            tx_idxs[k],
            rx_idxs[k],
            events.take(k),
            states[0].slots().len(),
        ),
    decreases k,
{
    let n = states[0].slots().len();
    if k == 0 {
        assert(events.take(0) =~= Seq::<ChannelEvent<T>>::empty());
        let g = granted(events.take(0));
        assert(g.skip(0) =~= Seq::<T>::empty());
        assert(g.take(0) =~= Seq::<T>::empty());
        lemma_mod_wrap(0, n as int);
    } else {
        lemma_run_prefix(states, tx_idxs, rx_idxs, events, k - 1);
        lemma_run_event(states, tx_idxs, rx_idxs, events, k - 1);
        assert(events.take(k - 1).push(events[k - 1]) =~= events.take(k));
    }
}

proof fn lemma_run_event<T>(
    states: Seq<Queue<T>>,
    tx_idxs: Seq<int>,
    rx_idxs: Seq<int>,
    events: Seq<ChannelEvent<T>>,
    k: int,
)
    requires
        channel_run(states, tx_idxs, rx_idxs, events),
        0 <= k < events.len(),
        run_invariant(
            states[k],
            tx_idxs[k],
            rx_idxs[k],
            events.take(k),
            states[0].slots().len(),
        ),
    ensures
        run_invariant(
            states[k + 1],
            tx_idxs[k + 1],
            rx_idxs[k + 1],
            events.take(k).push(events[k]),
            states[0].slots().len(),
        ),
        states[k + 1].closed() == (states[k].closed() || events[k] is TxShutdown
            || events[k] is RxShutdown),
        events[k] is Send ==> events[k]->send_res == next_grant(
            granted(events.take(k)).len() - delivered(events.take(k)).len(),
            states[0].slots().len() as int,
            states[k].closed(),
        ),
        events[k] is Ready ==> events[k]->ready_res == next_grant(
            granted(events.take(k)).len() - delivered(events.take(k)).len(),
            states[0].slots().len() as int,
            states[k].closed(),
        ),
        events[k] is Recv ==> events[k]->recv_res == next_delivery(
            granted(events.take(k)),
            delivered(events.take(k)),
            states[k].closed(),
        ),
        granted(events.take(k).push(events[k])) == if puts_value(events[k]) {
            granted(events.take(k)).push(put_value(events[k]))
        } else {
            granted(events.take(k))
        },
        !(events[k] is Recv && events[k]->recv_res is Ready && events[k]->recv_res->0 is Some)
            ==> delivered(events.take(k).push(events[k])) == delivered(events.take(k)),
{
    assert(channel_step(
        states[k],
        states[k + 1],
        tx_idxs[k],
        tx_idxs[k + 1],
        rx_idxs[k],
        rx_idxs[k + 1],
        events[k],
    ));
    lemma_run_step(
        states[k],
        states[k + 1],
        tx_idxs[k],
        tx_idxs[k + 1],
        rx_idxs[k],
        rx_idxs[k + 1],
        events[k],
        events.take(k),
        states[0].slots().len(),
    );
}

/// Over a whole run of a channel, from a fresh queue through any
/// interleaving of producer polls (of `send`, or of `poll_ready` followed by
/// a store), consumer polls and shutdowns:
/// - the values received are exactly the first values put in, in the order
///   they were put in, none lost or received twice;
/// - every consumer poll answers the oldest value put in and not yet
///   received, or, when there is none, the end of the stream once the queue
///   is shut and `Pending` otherwise;
/// - a producer's request for a slot, alone or as part of a send, is
///   granted exactly when the queue is open and holds fewer values than it
///   has slots, and refused with `Closed` once it is shut.
///
/// So after `n` granted sends and a shutdown, `n + 1` consumer polls answer
/// the `n` values in order and then the end of the stream.
pub proof fn law_channel_delivers_in_order<T>(
    states: Seq<Queue<T>>,
    tx_idxs: Seq<int>,
    rx_idxs: Seq<int>,
    events: Seq<ChannelEvent<T>>,
)
    requires
        channel_run(states, tx_idxs, rx_idxs, events),
    ensures
        forall|k: int|
            0 <= k <= events.len() ==> {
                let g = granted(#[trigger] events.take(k));
                let d = delivered(events.take(k));
                d.len() <= g.len() && d == g.take(d.len() as int)
            },
        forall|k: int|
            0 <= k < events.len() && (#[trigger] events[k]) is Recv ==> events[k]->recv_res
                == next_delivery(granted(events.take(k)), delivered(events.take(k)), states[k].closed()),
        forall|k: int|
            0 <= k < events.len() && (#[trigger] events[k]) is Send ==> events[k]->send_res
                == next_grant(
                granted(events.take(k)).len() - delivered(events.take(k)).len(),
                states[0].slots().len() as int,
                states[k].closed(),
            ),
        forall|k: int|
            0 <= k < events.len() && (#[trigger] events[k]) is Ready ==> events[k]->ready_res
                == next_grant(
                granted(events.take(k)).len() - delivered(events.take(k)).len(),
                states[0].slots().len() as int,
                states[k].closed(),
            ),
{
    assert forall|k: int| 0 <= k <= events.len() implies {
        let g = granted(#[trigger] events.take(k));
        let d = delivered(events.take(k));
        d.len() <= g.len() && d == g.take(d.len() as int)
    } by {
        lemma_run_prefix(states, tx_idxs, rx_idxs, events, k);
    }
    assert forall|k: int| 0 <= k < events.len() && (#[trigger] events[k]) is Recv implies events[k]->recv_res
        == next_delivery(granted(events.take(k)), delivered(events.take(k)), states[k].closed()) by {
        lemma_run_prefix(states, tx_idxs, rx_idxs, events, k);
        lemma_run_event(states, tx_idxs, rx_idxs, events, k);
    }
    assert forall|k: int| 0 <= k < events.len() && (#[trigger] events[k]) is Send implies events[k]->send_res
        == next_grant(
        granted(events.take(k)).len() - delivered(events.take(k)).len(),
        states[0].slots().len() as int,
        states[k].closed(),
    ) by {
        lemma_run_prefix(states, tx_idxs, rx_idxs, events, k);
        lemma_run_event(states, tx_idxs, rx_idxs, events, k);
    }
    assert forall|k: int| 0 <= k < events.len() && (#[trigger] events[k]) is Ready implies events[k]->ready_res
        == next_grant(
        granted(events.take(k)).len() - delivered(events.take(k)).len(),
        states[0].slots().len() as int,
        states[k].closed(),
    ) by {
        lemma_run_prefix(states, tx_idxs, rx_idxs, events, k);
        lemma_run_event(states, tx_idxs, rx_idxs, events, k);
    }
}

proof fn lemma_end_of_stream_persists<T>(
    states: Seq<Queue<T>>,
    tx_idxs: Seq<int>,
    rx_idxs: Seq<int>,
    events: Seq<ChannelEvent<T>>,
    j: int,
    i: int,
)
    requires
        channel_run(states, tx_idxs, rx_idxs, events),
        0 <= j < i <= events.len(),
        events[j] is Recv,
        events[j]->recv_res == Poll::<Option<T>>::Ready(None),
    ensures
        states[i].closed(),
        granted(events.take(i)).len() == delivered(events.take(i)).len(),
    decreases i - j,
{
    let m = i - 1;
    if m > j {
        lemma_end_of_stream_persists(states, tx_idxs, rx_idxs, events, j, m);
    }
    lemma_run_prefix(states, tx_idxs, rx_idxs, events, m);
    lemma_run_event(states, tx_idxs, rx_idxs, events, m);
    assert(events.take(m).push(events[m]) =~= events.take(i));
}

/// Once a consumer's poll has answered the end of the stream, every later
/// consumer poll answers the end of the stream too, although the consumer's
/// index moved on: no value is ever received after it.
pub proof fn law_end_of_stream_is_final<T>(
    states: Seq<Queue<T>>,
    tx_idxs: Seq<int>,
    rx_idxs: Seq<int>,
    events: Seq<ChannelEvent<T>>,
    j: int,
    k: int,
)
    requires
        channel_run(states, tx_idxs, rx_idxs, events),
        0 <= j < k < events.len(),
        events[j] is Recv,
        events[j]->recv_res == Poll::<Option<T>>::Ready(None),
        events[k] is Recv,
    ensures
        events[k]->recv_res == Poll::<Option<T>>::Ready(None),
{
    lemma_end_of_stream_persists(states, tx_idxs, rx_idxs, events, j, k);
    lemma_run_prefix(states, tx_idxs, rx_idxs, events, k);
    lemma_run_event(states, tx_idxs, rx_idxs, events, k);
}

} // verus!
