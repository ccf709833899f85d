//! Core of a small preemptive kernel for a single RV64 hart in machine mode:
//! trap-frame layout, trap decoding and dispatch, round-robin scheduling over
//! a fixed task table, the tick counter and delays, and the cooperative
//! spinlock and counting semaphore.
//!
//! Everything here is plain state and pure decisions; the code that touches
//! the hardware (CSRs, memory-mapped UART and timer, the assembly trap entry)
//! hands this library plain values and acts on what it returns.

pub mod cause;
pub mod digits;
pub mod frame;
pub mod sync;
pub mod task;
pub mod timer;
