//! The kernel half of a futex: a table of blocked waiters keyed by memory
//! location, and the operation engine that waits, wakes and requeues on it.
//!
//! - [`futex`] has the keys and the record of a blocked task, [`hash`] the
//!   hash that spreads keys over buckets.
//! - [`model`] says what a scan of a bucket takes and leaves; [`queue`] has
//!   the scans themselves and the table, whose buckets sit behind spin locks.
//! - [`engine`] is the operation engine, a pure state machine: it names the
//!   next thing to ask of the host or of the table and takes the answer back
//!   as an event. [`run`] says what holds of whole calls.
//! - [`syscall::sys_futex`] runs the engine against a [`syscall::Host`] and a
//!   [`queue::FutexQueues`]. [`binding`] has the rule by which a kernel binds
//!   each capability of the host to one handler.

pub mod binding;
pub mod engine;
pub mod error;
pub mod flags;
pub mod futex;
pub mod hash;
pub mod model;
pub mod queue;
pub mod run;
pub mod syscall;
pub mod wake_op;
