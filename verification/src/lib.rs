//! A fixed-size worker pool.
//!
//! A fixed number of long-lived worker threads consume units of work (jobs)
//! from one shared first-in-first-out channel, execute them, and shut down
//! cleanly on request. This crate holds the verified core of that protocol:
//! the message and job types, the lock-guarded channel with its
//! first-in-first-out invariant, the worker's state machine, and the pool's
//! bookkeeping for submission and teardown. The thin shell that spawns and
//! joins operating-system threads sits outside the verified core and drives
//! the worker's verified `poll` step in a loop.

pub mod channel;
pub mod laws;
pub mod message;
pub mod pool;
pub mod worker;
