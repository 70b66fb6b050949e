//! A minimal cooperative task runtime.
//!
//! Lazy computations ("tasks") are spawned onto a runtime, which drives
//! each of them by repeated polling until it yields a value.  Two
//! termination modes are offered: racing to the first completed value
//! (`select`) and gathering every value by task id (`join`).  A timer
//! keeps wake deadlines in earliest-first order, and a sleep primitive
//! completes once a target instant has passed.

pub mod executor;
pub mod runtime;
pub mod sleep;
pub mod spawner;
pub mod task;
pub mod timer;
