//! Polled transmission over a memory-mapped UART.
//!
//! The crate holds the decisions of a small bring-up firmware: which register
//! to touch next, and when a byte may be written. Touching the registers is
//! left to the caller, so the same decisions drive the real peripheral and the
//! scripted device model in [`sim`].
//!
//! - [`regs`]: the register map.
//! - [`access`]: register accesses and what a sequence of them amounts to.
//! - [`transmitter`]: the transmit decisions, as a state machine.
//! - [`sim`]: a scripted model of the UART.
//! - [`protocol`]: the accesses that a transmission consists of.
//! - [`uart`]: transmission on the model.
//! - [`firmware`]: the two firmware images.

pub mod access;
pub mod firmware;
pub mod protocol;
pub mod regs;
pub mod sim;
pub mod transmitter;
pub mod uart;
