//! USB full-speed device driver for MCXA2xx.
pub mod address;
pub mod bdt;
pub mod buffers;
pub mod bus;
pub mod clock;
pub mod control;
pub mod driver;
pub mod effects;
pub mod endpoint;
pub mod hardware;
pub mod interrupt;
pub mod laws;
pub mod laws_bus;
pub mod laws_clock;
pub mod laws_control;
pub mod laws_endpoint;
pub mod laws_interrupt;
pub mod laws_order;
pub mod laws_start;
pub mod ops;
pub mod pipe;
pub mod state;
pub mod types;
