//! Single-producer single-consumer queues built around a ring of slots,
//! together with a cell holding a shared `Arc`.

pub mod arc_cell;
pub mod mutex_queue;
pub mod spsc_lock;
pub mod task;
