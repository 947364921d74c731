//! Register-level logic of two MCXA peripherals: the FlexIO shifter and timer
//! bank, and the full-speed USB device controller.
//!
//! The library decides, a thin layer around it acts. Every function here works
//! on plain values: it takes what the registers read, updates the driver's own
//! state, and appends the register operations that have to be performed to a
//! queue. Whoever drives the hardware performs a queue in order, front to back,
//! before it calls the next function, and keeps the interrupt handler out from the
//! reads of a step to its last operation.

#![allow(unused_imports, dead_code)]

pub mod flexio;
pub mod mask;
pub mod progress;
pub mod usb;
