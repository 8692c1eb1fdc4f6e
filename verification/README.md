# queue_experiments

Single-producer single-consumer channels built on a ring of slots, and a
cell that holds a shared `Arc`.

- `src/` is verified with Verus:
  - `mutex_queue`: the ring of slots (`Queue`), what each poll of the
    producer or the consumer does to it, and how the two wake each other;
  - `spsc_lock`: how a channel's capacity is chosen, how each end's index
    walks the ring, one poll step of each end, and the laws that make the
    ring a bounded first-in first-out channel;
  - `arc_cell`: `ArcCell`, an `Arc` that can be read and replaced through a
    shared reference;
  - `task`: the poll result type and the waker calls the queue makes.
- `app/` holds the channel handles (`Sender`, `Receiver`, `channel`) for a
  `parking_lot` mutex and for a `futures` `BiLock`: they lock the shared
  queue, call the verified steps, and shut the queue down when dropped.
- `tests/` runs the library on concrete values.
