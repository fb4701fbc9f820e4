//! A verified control core for a fixed-size worker pool.
//!
//! The pool runs submitted one-shot jobs on a bounded set of long-lived
//! worker threads: jobs enter a single FIFO queue, any idle worker takes the
//! oldest queued job, runs it outside the queue lock, and the pool shuts down
//! by dropping the producer endpoint, draining the queue, and joining every
//! worker. The threads, the channel and the mutex themselves live with the
//! embedding program; this crate holds the part that can be proved: the
//! pool's control state and every transition of it, with contracts that pin
//! down construction, submission gating, FIFO dispatch, exactly-once
//! execution, panic isolation and the shutdown handshake.

pub mod pool;
pub mod worker;
