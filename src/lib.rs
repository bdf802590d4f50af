//! A fixed-capacity ring buffer with first-in, first-out order.
//!
//! The buffer owns a backing store of `capacity` slots that is allocated
//! once and never grows. Two enqueue policies are offered: `enqueue` evicts
//! the oldest element when the buffer is full, `enqueue_or_overflow` refuses
//! the new element instead.
pub mod laws;
pub mod model;
pub mod queue;

pub use queue::{OverflowError, RingB, DEFAULT_BUFFER_CAPACITY};
