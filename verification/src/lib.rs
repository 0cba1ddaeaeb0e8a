//! A non-blocking adapter over a blocking serial device.
//!
//! Callers read and write through two buffers held in a shared state
//! object, while a dedicated background worker performs the blocking
//! transport I/O: it appends whatever the device delivers to the inbound
//! queue and flushes the single outbound slot to the device.  This crate
//! verifies the buffering core: the shared state, the caller-facing
//! read/write operations, and the worker's state transitions.  The
//! transport itself, the lock, and the worker thread live outside.

pub mod model;
pub mod state;
