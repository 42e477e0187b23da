//! Scheduling core of an io_uring-based asynchronous runtime.
//!
//! The library holds the decisions of the runtime: which submissions a pending
//! operation hands to the ring, which completions become events, how timers are
//! queued, applied, fired and cancelled, and how the drivers' loops step. The
//! ring itself, the event file descriptor and the task machinery stay with the
//! caller, which performs each requested action and hands the outcome back.

pub mod waker;
pub mod timer_ops;
pub mod timer_map;
pub mod proactor;
pub mod reactor;
pub mod io;
pub mod blocking;
