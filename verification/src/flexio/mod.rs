//! FlexIO: a bank of programmable shifters and timers that share a set of signal
//! lines (lanes).
//!
//! [`peripheral::Flexio::new`] claims the peripheral and resets it, and
//! [`peripheral::Flexio::split`] hands out a [`peripheral::ShifterCluster`] and a
//! [`peripheral::TimerCluster`]. Single [`unit::Shifter`] and [`unit::Timer`] units
//! are taken from those. A [`keeper::ClockKeeper`] switches the peripheral off once all
//! of them are given back.
pub mod config;
pub mod fields;
pub mod keeper;
pub mod laws;
pub mod laws_uart;
pub mod laws_units;
pub mod ops;
pub mod peripheral;
pub mod pin;
pub mod registers;
pub mod uart_tx;
pub mod unit;
