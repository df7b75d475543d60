//! A fixed-capacity ring buffer with first-in, first-out order, for one
//! producer and one consumer.
//!
//! * [`buffer`] holds [`RingBuffer`], the buffer itself.
//! * [`state`] holds [`RingState`], the value that the contracts speak of:
//!   the capacity, the two positions and the live elements.
//! * [`position`] holds the arithmetic on the two positions, which are kept
//!   modulo twice the capacity.
//! * [`layout`] proves where the live elements lie in the slots.
//! * [`laws`] proves what holds of every buffer: the order of the elements,
//!   the bound that the capacity sets, what the positions count.
//! * [`protocol`] proves that the order still holds where a producer and a
//!   consumer share the slots and take their steps in any order.

pub mod buffer;
pub mod laws;
pub mod layout;
pub mod position;
pub mod protocol;
pub mod state;

pub use buffer::RingBuffer;
pub use state::RingState;
