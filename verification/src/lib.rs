//! Core of a bare-metal super-loop firmware architecture: a monotonic
//! tick clock with wraparound-safe elapsed-time arithmetic, a periodic
//! action gate, a shared-bus multiplexer that serializes transactions
//! from several logical devices over one physical bus, a best-effort
//! host transport, and the scheduler that composes them.
//!
//! The hardware itself (timer registers, SPI wires, USB engine) lives
//! outside this crate; the library holds every decision the loop makes
//! on the plain values read from or written to that hardware, with the
//! timing, ordering and mutual-exclusion discipline proved.

pub mod bus;
pub mod gate;
pub mod sched;
pub mod tick;
pub mod transport;
